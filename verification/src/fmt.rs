//! `Debug` for the set: its textual form, written to a formatter.
//!
//! The text is computed by `BitmapSet::debug_string`. Handing it to the
//! formatter is the one step here that is taken on trust.

use vstd::prelude::*;
use crate::set::BitmapSet;

verus! {

/// `core::fmt::Formatter`: the destination of formatted text. It is carried
/// through to `write_str`; nothing is known of what it holds.
#[verifier::external_type_specification]
#[verifier::external_body]
pub struct ExFormatter<'a>(core::fmt::Formatter<'a>);

/// `core::fmt::Error`: the error of a formatter that could not take the
/// text. It is handed on as it comes.
#[verifier::external_type_specification]
#[verifier::external_body]
pub struct ExError(core::fmt::Error);

/// `Formatter::write_str`: hands `text` to the formatter's output. Nothing is
/// claimed of the result: the output may refuse the text.
#[verifier::external_body]
fn write_text(f: &mut core::fmt::Formatter<'_>, text: &str) -> (r: core::fmt::Result) {
    f.write_str(text)
}

impl<const SIZE: usize> core::fmt::Debug for BitmapSet<SIZE> {
    /// Writes the text that `debug_string` gives.
    fn fmt(&self, f: &mut core::fmt::Formatter<'_>) -> (r: core::fmt::Result) {
        let text = self.debug_string();
        write_text(f, text.as_str())
    }
}

} // verus!
