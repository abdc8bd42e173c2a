//! The screen cursor of the positioning board, as row and column.

use vstd::prelude::*;
use crate::text::{decimal, push_decimal, string_of};

verus! {

/// `a` clamped into `[lo, hi]`, with the upper bound taking precedence.
pub open spec fn clamp_pos(a: int, lo: int, hi: int) -> int {
    if a > hi { hi } else if a < lo { lo } else { a }
}

/// A cursor position as row and column, both counted from 1 as in
/// ANSI/CSI, with the current numbers of rows and columns.
#[derive(Debug, Clone, Copy, PartialEq, Eq, Structural)]
pub struct CursorPos {
    /// Row, from 1.
    pub n: usize,
    /// Column, from 1.
    pub m: usize,
    /// Current number of rows.
    pub max_n: usize,
    /// Current number of columns.
    pub max_m: usize,
}

/// The escape character that opens a CSI sequence.
pub open spec fn esc() -> char {
    '\x1b'
}

/// The device status report for a cursor at row `n` and column `m`:
/// `ESC [ n ; m R`.
pub open spec fn dsr_text(n: nat, m: nat) -> Seq<char> {
    seq![esc(), '['] + decimal(n) + seq![';'] + decimal(m) + seq!['R']
}

impl CursorPos {
    /// The cursor that `new` makes.
    pub open spec fn spec_new(n: usize, m: usize, max_n: usize, max_m: usize) -> CursorPos {
        CursorPos {
            n: if n > 1 { n } else { 1 },
            m: if m > 1 { m } else { 1 },
            max_n: if max_n > 2 { max_n } else { 2 },
            max_m: if max_m > 2 { max_m } else { 2 },
        }
    }

    /// A cursor at row `n` and column `m`; row and column are at least 1 and
    /// the numbers of rows and columns at least 2.
    pub fn new(n: usize, m: usize, max_n: usize, max_m: usize) -> (c: CursorPos)
        ensures
            c == CursorPos::spec_new(n, m, max_n, max_m),
            c.n == if n > 1 { n } else { 1 },
            c.m == if m > 1 { m } else { 1 },
            c.max_n == if max_n > 2 { max_n } else { 2 },
            c.max_m == if max_m > 2 { max_m } else { 2 },
    {
        CursorPos {
            n: if n > 1 { n } else { 1 },
            m: if m > 1 { m } else { 1 },
            max_n: if max_n > 2 { max_n } else { 2 },
            max_m: if max_m > 2 { max_m } else { 2 },
        }
    }

    /// Moves the cursor to row `n` and column `m`, clamped into the board.
    pub fn set(&mut self, n: usize, m: usize)
        ensures
            final(self).n == clamp_pos(n as int, 1, old(self).max_n as int),
            final(self).m == clamp_pos(m as int, 1, old(self).max_m as int),
            final(self).max_n == old(self).max_n,
            final(self).max_m == old(self).max_m,
    {
        self.n = if n > self.max_n { self.max_n } else if n < 1 { 1 } else { n };
        self.m = if m > self.max_m { self.max_m } else if m < 1 { 1 } else { m };
    }

    /// The position as (row, column).
    pub fn get(&self) -> (p: (usize, usize))
        ensures
            p == (self.n, self.m),
    {
        (self.n, self.m)
    }

    /// Moves the cursor to column `m`, clamped into the board.
    pub fn set_m(&mut self, m: usize)
        ensures
            *final(self) == (CursorPos { m: clamp_pos(m as int, 1, old(self).max_m as int) as usize, ..*old(self) }),
    {
        self.m = if m > self.max_m { self.max_m } else if m < 1 { 1 } else { m };
    }

    /// Moves the cursor up `n` rows, stopping at row 1.
    pub fn sub_n(&mut self, n: usize)
        requires
            n <= old(self).n,
        ensures
            *final(self) == (CursorPos { n: if old(self).n - n > 1 { (old(self).n - n) as usize } else { 1 }, ..*old(self) }),
    {
        let d = self.n - n;
        self.n = if d > 1 { d } else { 1 };
    }

    /// Moves the cursor left `m` columns, stopping at column 1.
    pub fn sub_m(&mut self, m: usize)
        requires
            m <= old(self).m,
        ensures
            *final(self) == (CursorPos { m: if old(self).m - m > 1 { (old(self).m - m) as usize } else { 1 }, ..*old(self) }),
    {
        let d = self.m - m;
        self.m = if d > 1 { d } else { 1 };
    }

    /// Moves the cursor down `n` rows; the row may pass the last one.
    pub fn add_n(&mut self, n: usize)
        requires
            old(self).n + n <= usize::MAX,
        ensures
            *final(self) == (CursorPos { n: (old(self).n + n) as usize, ..*old(self) }),
    {
        self.n = self.n + n;
    }

    /// Moves the cursor right `m` columns; the column may pass the last one.
    pub fn add_m(&mut self, m: usize)
        requires
            old(self).m + m <= usize::MAX,
        ensures
            *final(self) == (CursorPos { m: (old(self).m + m) as usize, ..*old(self) }),
    {
        self.m = self.m + m;
    }

    /// The cursor position report, `ESC[n;mR`.
    pub fn dsr(&self) -> (s: String)
        ensures
            s@ == dsr_text(self.n as nat, self.m as nat),
    {
        let mut v: Vec<char> = Vec::new();
        v.push('\x1b');
        v.push('[');
        push_decimal(&mut v, self.n);
        v.push(';');
        push_decimal(&mut v, self.m);
        v.push('R');
        assert(v@ =~= dsr_text(self.n as nat, self.m as nat));
        string_of(&v)
    }
}

/// Placing the cursor always keeps it on a board of at least one row and
/// one column.
pub proof fn law_set_stays_on_board(a: int, max: int)
    requires
        max >= 1,
    ensures
        1 <= clamp_pos(a, 1, max) <= max,
{
}

} // verus!
