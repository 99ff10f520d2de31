//! The VGA text console, for when there is no framebuffer.
//!
//! A last resort, and the difference between a diagnosable failure and a
//! machine that appears never to have started. It prints the report, and it
//! says why the interface is not there.

use vstd::prelude::*;

verus! {

/// The text buffer every PC has had at this address since the EGA.
pub const VGA_BUFFER: u64 = 0xB_8000;

pub const WIDTH: usize = 80;

pub const HEIGHT: usize = 25;

/// How many cells the screen has.
pub const CELLS: usize = 2000;

/// Light grey on black, the attribute a BIOS leaves behind.
pub const ATTRIBUTE: u16 = 0x0700;

/// A blank cell.
pub const BLANK: u16 = 0x0720;

/// A text screen: its cells, where the next character goes, and whether it is
/// in use.
pub struct Console {
    pub cells: Vec<u16>,
    pub cursor: usize,
    pub active: bool,
}

/// The cell that shows a byte.
pub open spec fn cell_of(byte: u8) -> u16 {
    (ATTRIBUTE + byte) as u16
}

/// Where a byte leaves the cursor.
pub open spec fn moved(cursor: int, byte: u8) -> int {
    if byte == 10 {
        (cursor / 80 + 1) * 80
    } else if byte == 13 {
        cursor / 80 * 80
    } else {
        cursor + 1
    }
}

/// What a byte makes of the cells before any scrolling.
pub open spec fn written(cells: Seq<u16>, cursor: int, byte: u8) -> Seq<u16> {
    if byte == 10 || byte == 13 {
        cells
    } else {
        cells.update(cursor, cell_of(byte))
    }
}

/// Everything moved up one line, and the last line blank.
pub open spec fn scrolled(cells: Seq<u16>) -> Seq<u16> {
    cells.skip(80) + Seq::new(80, |i: int| BLANK)
}

/// What a byte makes of the screen, and where it leaves the cursor.
pub open spec fn put_on(cells: Seq<u16>, cursor: int, byte: u8) -> (Seq<u16>, int) {
    let at = moved(cursor, byte);
    let after = written(cells, cursor, byte);
    if at >= CELLS {
        (scrolled(after), CELLS - WIDTH)
    } else {
        (after, at)
    }
}

/// A character stands where the cursor was, light grey on black, and the cursor
/// moves on by one; a newline goes to the start of the next line and a carriage
/// return to the start of this one, and neither leaves a mark. At the bottom
/// every line moves up by one, the last is blank, and the cursor is at its start.
pub proof fn what_a_byte_does(cells: Seq<u16>, cursor: int, byte: u8, i: int)
    requires
        cells.len() == 2000,
        0 <= cursor < 2000,
        0 <= i < 2000,
    ensures
        ({
            let (after, at) = put_on(cells, cursor, byte);
            let (row, column) = (cursor / 80, cursor % 80);
            let shown = if byte != 10 && byte != 13 && i == cursor {
                (0x0700 + byte) as u16
            } else {
                cells[i]
            };
            &&& after.len() == 2000
            &&& byte == 13 ==> after == cells && at == row * 80
            &&& byte == 10 && row < 24 ==> after == cells && at == (row + 1) * 80
            &&& byte != 10 && byte != 13 && cursor < 1999 ==> after[i] == shown && at == cursor + 1
            &&& byte == 10 && row == 24 || byte != 10 && byte != 13 && cursor == 1999 ==> {
                &&& at == 24 * 80
                &&& i >= 80 ==> after[i - 80] == shown
                &&& i >= 1920 ==> after[i] == 0x0720
            }
        }),
{
}

impl Console {
    /// The screen has all its cells, and the cursor is on it.
    pub open spec fn wf(self) -> bool {
        self.cells@.len() == CELLS && self.cursor < CELLS
    }

    /// A console that is not in use.
    pub fn new() -> (r: Console)
        ensures
            r.wf(),
            !r.active,
            r.cursor == 0,
            r.cells@ == Seq::new(CELLS as nat, |i: int| BLANK),
    {
        let cells: Vec<u16> = vec![BLANK; CELLS];
        assert(cells@ =~= Seq::new(CELLS as nat, |i: int| BLANK));
        Console { cells, cursor: 0, active: false }
    }

    /// Turns the text console on and clears it.
    pub fn activate(&mut self)
        requires
            old(self).wf(),
        ensures
            final(self).wf(),
            final(self).active,
            final(self).cursor == 0,
            final(self).cells@ == Seq::new(CELLS as nat, |i: int| BLANK),
    {
        let cells: Vec<u16> = vec![BLANK; CELLS];
        assert(cells@ =~= Seq::new(CELLS as nat, |i: int| BLANK));
        self.cells = cells;
        self.cursor = 0;
        self.active = true;
    }

    /// Whether output is going to the text console.
    pub fn is_active(&self) -> (r: bool)
        ensures
            r == self.active,
    {
        self.active
    }

    /// Moves everything up one line.
    fn scroll(&mut self)
        requires
            old(self).cells@.len() == CELLS,
        ensures
            final(self).cells@ == scrolled(old(self).cells@),
            *final(self) == (Console { cells: final(self).cells, ..*old(self) }),
    {
        let ghost before = self.cells@;
        let mut i: usize = 0;
        while i < CELLS - WIDTH
            invariant
                i <= CELLS - WIDTH,
                self.cells@.len() == CELLS,
                self.active == old(self).active,
                self.cursor == old(self).cursor,
                before == old(self).cells@,
                before.len() == CELLS,
                forall|j: int| 0 <= j < i ==> self.cells@[j] == before[j + 80],
                forall|j: int| i <= j < CELLS ==> self.cells@[j] == before[j],
            decreases CELLS - i,
        {
            self.cells[i] = self.cells[i + WIDTH];
            i += 1;
        }
        while i < CELLS
            invariant
                CELLS - WIDTH <= i <= CELLS,
                self.cells@.len() == CELLS,
                self.active == old(self).active,
                self.cursor == old(self).cursor,
                before == old(self).cells@,
                before.len() == CELLS,
                forall|j: int| 0 <= j < CELLS - WIDTH ==> self.cells@[j] == before[j + 80],
                forall|j: int| CELLS - WIDTH <= j < i ==> self.cells@[j] == BLANK,
            decreases CELLS - i,
        {
            self.cells[i] = BLANK;
            i += 1;
        }
        assert(self.cells@ =~= scrolled(before));
    }

    /// Writes one byte, scrolling at the bottom.
    pub fn put(&mut self, byte: u8)
        requires
            old(self).wf(),
        ensures
            final(self).wf(),
            final(self).active == old(self).active,
            !old(self).active ==> *final(self) == *old(self),
            old(self).active ==> (final(self).cells@, final(self).cursor as int) == put_on(
                old(self).cells@,
                old(self).cursor as int,
                byte,
            ),
    {
        if !self.active {
            return;
        }
        if byte == 10 {
            self.cursor = (self.cursor / WIDTH + 1) * WIDTH;
        } else if byte == 13 {
            self.cursor = self.cursor / WIDTH * WIDTH;
        } else {
            self.cells[self.cursor] = ATTRIBUTE + byte as u16;
            self.cursor += 1;
        }
        if self.cursor >= CELLS {
            self.scroll();
            self.cursor = CELLS - WIDTH;
        }
    }
}

} // verus!
