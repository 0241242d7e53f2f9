//! Widget identity.

use vstd::prelude::*;
use vstd::string::StringExecFns;

verus! {

/// A stable token that names a widget.
///
/// Two widgets are the same widget exactly when their ids are equal. Nothing
/// else about a widget survives from one frame to the next.
#[derive(Clone, Copy, Debug, PartialEq, Eq, Hash, Structural)]
pub struct Id(pub u64);

/// The digit of base 16 that stands for `n`, in upper case.
pub open spec fn hex_digit(n: int) -> char
    recommends
        0 <= n < 16,
{
    seq!['0', '1', '2', '3', '4', '5', '6', '7', '8', '9', 'A', 'B', 'C', 'D', 'E', 'F'][n]
}

/// The digit of base 16 that stands for `n`, as a string.
fn hex_digit_str(n: u64) -> (digit: &'static str)
    requires
        n < 16,
    ensures
        digit@ == seq![hex_digit(n as int)],
{
    proof {
        reveal_strlit("0");
        reveal_strlit("1");
        reveal_strlit("2");
        reveal_strlit("3");
        reveal_strlit("4");
        reveal_strlit("5");
        reveal_strlit("6");
        reveal_strlit("7");
        reveal_strlit("8");
        reveal_strlit("9");
        reveal_strlit("A");
        reveal_strlit("B");
        reveal_strlit("C");
        reveal_strlit("D");
        reveal_strlit("E");
        reveal_strlit("F");
    }
    let digit = match n {
        0 => "0",
        1 => "1",
        2 => "2",
        3 => "3",
        4 => "4",
        5 => "5",
        6 => "6",
        7 => "7",
        8 => "8",
        9 => "9",
        10 => "A",
        11 => "B",
        12 => "C",
        13 => "D",
        14 => "E",
        _ => "F",
    };
    assert(digit@ =~= seq![hex_digit(n as int)]);
    digit
}

impl Id {
    /// The id that holds `value`.
    pub fn new(value: u64) -> (id: Id)
        ensures
            id == Id(value),
    {
        Id(value)
    }

    /// The number that this id holds.
    pub fn value(&self) -> (value: u64)
        ensures
            value == self.0,
    {
        self.0
    }

    /// The short form of the id: the lowest sixteen bits of its number, as
    /// four digits of base 16.
    pub open spec fn short_form(self) -> Seq<char> {
        let n = self.0 as int;
        seq![
            hex_digit((n / 0x1000) % 16),
            hex_digit((n / 0x100) % 16),
            hex_digit((n / 0x10) % 16),
            hex_digit(n % 16),
        ]
    }

    /// A short text for the id, to tell widgets apart when looking at them.
    /// Different ids may have the same short text.
    pub fn short_debug_format(&self) -> (text: String)
        ensures
            text@ == self.short_form(),
    {
        let mut text = String::new();
        text.append(hex_digit_str((self.0 / 0x1000) % 16));
        text.append(hex_digit_str((self.0 / 0x100) % 16));
        text.append(hex_digit_str((self.0 / 0x10) % 16));
        text.append(hex_digit_str(self.0 % 16));
        assert(text@ =~= self.short_form());
        text
    }
}

} // verus!
