//! The grid cell: a clue cell carrying sum targets, or a playable cell
//! holding a digit.

use crate::text::dec_chars;
use crate::text::digit_char;
use crate::text::digit_lit;
use crate::text::lemma_dec_chars_len;
use crate::text::pad_left;
use crate::text::pad_right;
use crate::text::u16_string;
use vstd::prelude::*;
use vstd::string::StringExecFns;

verus! {

/// One Kakuro grid cell.
///
/// A clue cell declares the sum target of the run to its right
/// (`across_sum`) and/or of the run below it (`down_sum`) and never holds a
/// digit; validation records its verdict in the two `*_incorrect` flags.
/// A playable cell holds an optional digit `1..=9` and nothing else.
#[derive(Clone)]
pub struct Cell {
    /// Digit held by a playable cell, `None` when empty.
    pub value: Option<u8>,
    /// Sum target of the across run this clue cell owns.
    pub across_sum: Option<u16>,
    /// Sum target of the down run this clue cell owns.
    pub down_sum: Option<u16>,
    /// Whether this is a clue cell rather than a playable cell.
    pub is_clue: bool,
    /// Set by validation when the across run breaks its constraint.
    pub a_incorrect: bool,
    /// Set by validation when the down run breaks its constraint.
    pub d_incorrect: bool,
}

impl Cell {
    /// A cell is exactly one of the two variants: a clue cell never holds a
    /// digit, and a playable cell never holds sum targets or verdict flags.
    pub open spec fn wf(self) -> bool {
        if self.is_clue {
            self.value is None
        } else {
            &&& match self.value {
                Some(v) => 1 <= v <= 9,
                None => true,
            }
            &&& self.across_sum is None
            &&& self.down_sum is None
            &&& !self.a_incorrect
            &&& !self.d_incorrect
        }
    }

    /// Creates an empty playable cell.
    pub fn new_play() -> (c: Cell)
        ensures
            c == (Cell {
                value: None,
                across_sum: None,
                down_sum: None,
                is_clue: false,
                a_incorrect: false,
                d_incorrect: false,
            }),
            c.wf(),
    {
        Cell {
            value: None,
            across_sum: None,
            down_sum: None,
            is_clue: false,
            a_incorrect: false,
            d_incorrect: false,
        }
    }

    /// Creates a clue cell with the given sum targets.
    pub fn new_clue(across: Option<u16>, down: Option<u16>) -> (c: Cell)
        ensures
            c == (Cell {
                value: None,
                across_sum: across,
                down_sum: down,
                is_clue: true,
                a_incorrect: false,
                d_incorrect: false,
            }),
            c.wf(),
    {
        Cell {
            value: None,
            across_sum: across,
            down_sum: down,
            is_clue: true,
            a_incorrect: false,
            d_incorrect: false,
        }
    }

    /// Returns whether this is a clue cell.
    pub fn is_clue(&self) -> (r: bool)
        ensures
            r == self.is_clue,
    {
        self.is_clue
    }

    /// Returns the cell's digit.
    pub fn value(&self) -> (r: Option<u8>)
        ensures
            r == self.value,
    {
        self.value
    }

    /// Returns the cell's across sum target.
    pub fn across_sum(&self) -> (r: Option<u16>)
        ensures
            r == self.across_sum,
    {
        self.across_sum
    }

    /// Returns the cell's down sum target.
    pub fn down_sum(&self) -> (r: Option<u16>)
        ensures
            r == self.down_sum,
    {
        self.down_sum
    }

    /// Returns whether the across run was flagged incorrect.
    pub fn is_a_incorrect(&self) -> (r: bool)
        ensures
            r == self.a_incorrect,
    {
        self.a_incorrect
    }

    /// Returns whether the down run was flagged incorrect.
    pub fn is_d_incorrect(&self) -> (r: bool)
        ensures
            r == self.d_incorrect,
    {
        self.d_incorrect
    }

    /// Sets the digit of a playable cell.
    pub fn set_value(&mut self, v: Option<u8>)
        requires
            !old(self).is_clue,
            match v {
                Some(d) => 1 <= d <= 9,
                None => true,
            },
        ensures
            *final(self) == (Cell { value: v, ..*old(self) }),
            old(self).wf() ==> final(self).wf(),
    {
        self.value = v;
    }

    /// Records the across verdict on a clue cell.
    pub fn set_a_incorrect(&mut self, incorrect: bool)
        requires
            old(self).is_clue,
        ensures
            *final(self) == (Cell { a_incorrect: incorrect, ..*old(self) }),
            old(self).wf() ==> final(self).wf(),
    {
        self.a_incorrect = incorrect;
    }

    /// Records the down verdict on a clue cell.
    pub fn set_d_incorrect(&mut self, incorrect: bool)
        requires
            old(self).is_clue,
        ensures
            *final(self) == (Cell { d_incorrect: incorrect, ..*old(self) }),
            old(self).wf() ==> final(self).wf(),
    {
        self.d_incorrect = incorrect;
    }
}

/// The characters of an optional sum target, empty when absent.
pub open spec fn sum_chars(o: Option<u16>) -> Seq<char> {
    match o {
        Some(t) => dec_chars(t as int),
        None => Seq::empty(),
    }
}

/// The left half of a clue cell's content row: the down target,
/// right-justified in two columns. Empty when the cell has no targets at all.
pub open spec fn clue_left_chars(c: Cell) -> Seq<char> {
    if c.down_sum is None && c.across_sum is None {
        Seq::empty()
    } else {
        pad_left(sum_chars(c.down_sum), 2)
    }
}

/// The right half of a clue cell's content row: the across target,
/// left-justified in two columns. Empty when the cell has no targets at all.
pub open spec fn clue_right_chars(c: Cell) -> Seq<char> {
    if c.down_sum is None && c.across_sum is None {
        Seq::empty()
    } else {
        pad_right(sum_chars(c.across_sum), 2)
    }
}

/// The top border of a playable cell's box.
pub open spec fn play_top_chars() -> Seq<char> {
    "┌─────┐"@
}

/// The content row of a playable cell's box: the digit, or an underscore
/// placeholder when the cell is empty, centered in the box.
pub open spec fn play_mid_chars(c: Cell) -> Seq<char> {
    "|  "@ + (match c.value {
        Some(v) => seq![digit_char(v as int)],
        None => "_"@,
    }) + "  |"@
}

/// The bottom border of a playable cell's box.
pub open spec fn play_bot_chars() -> Seq<char> {
    "└─────┘"@
}

impl Cell {
    /// Returns the two halves of a clue cell's content row.
    pub fn clue_string(&self) -> (r: (String, String))
        ensures
            r.0@ == clue_left_chars(*self),
            r.1@ == clue_right_chars(*self),
    {
        proof {
            reveal_strlit(" ");
            reveal_strlit("  ");
        }
        if self.down_sum.is_none() && self.across_sum.is_none() {
            return (String::new(), String::new());
        }
        let left: String = match self.down_sum {
            None => String::from_str("  "),
            Some(d) => {
                proof {
                    lemma_dec_chars_len(d as int);
                }
                if d < 10 {
                    let mut s = String::from_str(" ");
                    let ds = u16_string(d);
                    s.append(ds.as_str());
                    proof {
                        assert(s@ =~= pad_left(dec_chars(d as int), 2));
                    }
                    s
                } else {
                    u16_string(d)
                }
            },
        };
        let right: String = match self.across_sum {
            None => String::from_str("  "),
            Some(a) => {
                proof {
                    lemma_dec_chars_len(a as int);
                }
                if a < 10 {
                    let mut s = u16_string(a);
                    s.append(" ");
                    proof {
                        assert(s@ =~= pad_right(dec_chars(a as int), 2));
                    }
                    s
                } else {
                    u16_string(a)
                }
            },
        };
        proof {
            assert(pad_left(Seq::<char>::empty(), 2) =~= "  "@) by {
                reveal_strlit("  ");
            }
            assert(pad_right(Seq::<char>::empty(), 2) =~= "  "@) by {
                reveal_strlit("  ");
            }
        }
        (left, right)
    }

    /// Returns the three rows of a playable cell's box.
    pub fn play_strings(&self) -> (r: (String, String, String))
        requires
            self.wf(),
        ensures
            r.0@ == play_top_chars(),
            r.1@ == play_mid_chars(*self),
            r.2@ == play_bot_chars(),
    {
        let top = String::from_str("┌─────┐");
        let bot = String::from_str("└─────┘");
        let mut mid = String::from_str("|  ");
        match self.value {
            Some(v) => {
                let d = digit_lit(v);
                mid.append(d);
            },
            None => {
                mid.append("_");
            },
        }
        mid.append("  |");
        (top, mid, bot)
    }
}

} // verus!
