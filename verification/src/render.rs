//! The textual form of a set: its members in ascending order, in decimal,
//! between braces.

use vstd::prelude::*;
use vstd::string::*;
use crate::set::BitmapSet;

verus! {

/// The text of the decimal digit `d`.
pub open spec fn digit_text(d: int) -> Seq<char>
    recommends
        0 <= d < 10,
{
    if d == 0 {
        "0"@
    } else if d == 1 {
        "1"@
    } else if d == 2 {
        "2"@
    } else if d == 3 {
        "3"@
    } else if d == 4 {
        "4"@
    } else if d == 5 {
        "5"@
    } else if d == 6 {
        "6"@
    } else if d == 7 {
        "7"@
    } else if d == 8 {
        "8"@
    } else {
        "9"@
    }
}

/// The decimal text of `n`, without leading zeros.
pub open spec fn decimal_text(n: int) -> Seq<char>
    recommends
        0 <= n,
    decreases n,
{
    if n < 10 {
        digit_text(n)
    } else {
        decimal_text(n / 10) + digit_text(n % 10)
    }
}

/// The decimal texts of `items`, separated by a comma and a space.
pub open spec fn joined_text(items: Seq<u8>) -> Seq<char>
    decreases items.len(),
{
    if items.len() == 0 {
        Seq::empty()
    } else if items.len() == 1 {
        decimal_text(items[0] as int)
    } else {
        joined_text(items.drop_last()) + ", "@ + decimal_text(items.last() as int)
    }
}

/// The text of a set with the members `items`.
pub open spec fn debug_text(items: Seq<u8>) -> Seq<char> {
    "BitmapSet {"@ + joined_text(items) + "}"@
}

fn digit_str(d: u8) -> (s: &'static str)
    requires
        d < 10,
    ensures
        s@ == digit_text(d as int),
{
    if d == 0 {
        "0"
    } else if d == 1 {
        "1"
    } else if d == 2 {
        "2"
    } else if d == 3 {
        "3"
    } else if d == 4 {
        "4"
    } else if d == 5 {
        "5"
    } else if d == 6 {
        "6"
    } else if d == 7 {
        "7"
    } else if d == 8 {
        "8"
    } else {
        "9"
    }
}

fn append_decimal(out: &mut String, n: u8)
    ensures
        final(out)@ == old(out)@ + decimal_text(n as int),
{
    proof {
        reveal_with_fuel(decimal_text, 3);
    }
    if n >= 100 {
        out.append(digit_str(n / 100));
    }
    if n >= 10 {
        out.append(digit_str((n / 10) % 10));
    }
    out.append(digit_str(n % 10));
}

impl<const SIZE: usize> BitmapSet<SIZE> {
    /// The set as text: `BitmapSet {`, the members in ascending order, in
    /// decimal and separated by a comma and a space, and `}`.
    pub fn debug_string(&self) -> (s: String)
        ensures
            s@ == debug_text(self.elements()),
    {
        let mut out = String::from_str("BitmapSet {");
        let mut first = true;
        for v in it: self.iter()
            invariant
                it.snapshot@.source() == *self,
                it.snapshot@.cursor() == 0,
                first == (it.index() == 0),
                out@ == "BitmapSet {"@ + joined_text(self.elements().take(it.index())),
        {
            proof {
                let done = self.elements().take(it.index());
                let more = self.elements().take(it.index() + 1);
                assert(more.drop_last() =~= done);
            }
            if !first {
                out.append(", ");
            }
            append_decimal(&mut out, v);
            first = false;
        }
        proof {
            assert(self.elements().take(self.elements().len() as int) =~= self.elements());
        }
        out.append("}");
        out
    }
}

} // verus!
