use vstd::prelude::*;

verus! {

/// Cursor of the memory view: on the address of a row, on a byte, or on its character
#[derive(Clone, Copy, PartialEq, Eq, Debug, Structural)]
pub enum Cursor {
    Address(usize),
    Memory(usize, usize),
    Text(usize, usize),
}

/// Keys pressed at once; `alt` jumps to the edge instead of moving one step
#[derive(Clone, Copy, PartialEq, Eq, Debug, Structural)]
pub struct Keys {
    pub up: bool,
    pub down: bool,
    pub left: bool,
    pub right: bool,
    pub page_up: bool,
    pub page_down: bool,
    pub home: bool,
    pub end: bool,
    pub alt: bool,
}

/// Hex and text view of memory: `rows` rows of `cols` bytes from `addr`, and a cursor
#[derive(Clone, Copy, PartialEq, Eq, Debug, Structural)]
pub struct MemoryWindow {
    pub cols: usize,
    pub rows: usize,
    pub addr: u16,
    pub cursor: Cursor,
}

pub open spec fn cursor_row(c: Cursor) -> usize {
    match c {
        Cursor::Address(row) | Cursor::Memory(_, row) | Cursor::Text(_, row) => row,
    }
}

pub open spec fn with_row(c: Cursor, row: usize) -> Cursor {
    match c {
        Cursor::Address(_) => Cursor::Address(row),
        Cursor::Memory(col, _) => Cursor::Memory(col, row),
        Cursor::Text(col, _) => Cursor::Text(col, row),
    }
}

pub open spec fn wrap_add(a: u16, n: int) -> u16 {
    ((a + n) % 0x10000) as u16
}

impl MemoryWindow {

    /// At least one row and one column, and a cursor inside them
    pub open spec fn wf(&self) -> bool {
        &&& 1 <= self.rows && 1 <= self.cols
        &&& self.cols * self.rows <= usize::MAX
        &&& cursor_row(self.cursor) < self.rows
        &&& match self.cursor {
            Cursor::Memory(col, _) | Cursor::Text(col, _) => col < self.cols,
            _ => true,
        }
    }

    /// Arrow up: one row up, scrolling at the top; with alt, to the top row
    #[verifier::opaque]
    pub open spec fn key_up(self, alt: bool) -> MemoryWindow {
        let row = cursor_row(self.cursor);
        if alt {
            MemoryWindow { cursor: with_row(self.cursor, 0), ..self }
        } else {
            MemoryWindow {
                addr: if row == 0 { wrap_add(self.addr, -(self.cols as u16 as int)) } else { self.addr },
                cursor: with_row(self.cursor, if row == 0 { 0 } else { (row - 1) as usize }),
                ..self
            }
        }
    }

    /// Arrow down: one row down; with alt, to the bottom row. The view scrolls when `start`,
    /// the row the cursor was on before any key of the same press, is the bottom row
    #[verifier::opaque]
    pub open spec fn key_down(self, alt: bool, start: usize) -> MemoryWindow {
        let row = cursor_row(self.cursor);
        let last = (self.rows - 1) as usize;
        if alt {
            MemoryWindow { cursor: with_row(self.cursor, last), ..self }
        } else {
            MemoryWindow {
                addr: if start == last { wrap_add(self.addr, self.cols as u16 as int) } else { self.addr },
                cursor: with_row(self.cursor, if row + 1 < last { (row + 1) as usize } else { last }),
                ..self
            }
        }
    }

    /// Arrow left: from text to bytes to the address; with alt, to the first column of the part
    #[verifier::opaque]
    pub open spec fn key_left(self, alt: bool) -> MemoryWindow {
        let cursor = match self.cursor {
            Cursor::Memory(col, row) => if col == 0 { Cursor::Address(row) }
                else if alt { Cursor::Memory(0, row) } else { Cursor::Memory((col - 1) as usize, row) },
            Cursor::Text(col, row) => if col == 0 { Cursor::Memory(if alt { 0 } else { (self.cols - 1) as usize }, row) }
                else if alt { Cursor::Text(0, row) } else { Cursor::Text((col - 1) as usize, row) },
            c => c,
        };
        MemoryWindow { cursor, ..self }
    }

    /// Arrow right: from the address to bytes to text; with alt, to the last column of the part
    #[verifier::opaque]
    pub open spec fn key_right(self, alt: bool) -> MemoryWindow {
        let last = (self.cols - 1) as usize;
        let cursor = match self.cursor {
            Cursor::Address(row) => Cursor::Memory(if alt { last } else { 0 }, row),
            Cursor::Memory(col, row) => if col == last { Cursor::Text(if alt { last } else { 0 }, row) }
                else if alt { Cursor::Memory(last, row) } else { Cursor::Memory((col + 1) as usize, row) },
            Cursor::Text(col, row) => if alt { Cursor::Text(last, row) }
                else if col < last { Cursor::Text((col + 1) as usize, row) } else { Cursor::Text(col, row) },
        };
        MemoryWindow { cursor, ..self }
    }

    /// Bytes of a page
    pub open spec fn page(self) -> int {
        ((self.cols * self.rows) % 0x10000) as int
    }

    /// The view after the arrow keys of a press, handled up, down, left, right; `start` is the
    /// row the cursor was on before the press
    pub open spec fn after_arrows(self, keys: Keys, start: usize) -> MemoryWindow {
        let w1 = if keys.up { self.key_up(keys.alt) } else { self };
        let w2 = if keys.down { w1.key_down(keys.alt, start) } else { w1 };
        let w3 = if keys.left { w2.key_left(keys.alt) } else { w2 };
        if keys.right { w3.key_right(keys.alt) } else { w3 }
    }

    /// The view after Page Up and Page Down: a page back, then a page forward
    pub open spec fn after_pages(self, keys: Keys) -> MemoryWindow {
        let back = if keys.page_up { wrap_add(self.addr, -self.page()) } else { self.addr };
        MemoryWindow { addr: if keys.page_down { wrap_add(back, self.page()) } else { back }, ..self }
    }

    /// The view after the keys pressed at once: arrows, then pages, then Home and End, which go
    /// to the row the cursor was on before any of them
    pub open spec fn after_keys(self, keys: Keys) -> MemoryWindow {
        let row = cursor_row(self.cursor);
        let w = self.after_arrows(keys, row).after_pages(keys);
        let w1 = if keys.home { MemoryWindow { cursor: Cursor::Address(row), ..w } } else { w };
        if keys.end { MemoryWindow { cursor: Cursor::Text((w1.cols - 1) as usize, row), ..w1 } } else { w1 }
    }

    /// A view of 16 rows of 8 bytes from address 0, the cursor on the first address
    pub fn new() -> (r: MemoryWindow)
        ensures
            r.wf(),
            r == (MemoryWindow { cols: 8, rows: 16, addr: 0, cursor: Cursor::Address(0) }),
    {
        MemoryWindow { cols: 8, rows: 16, addr: 0, cursor: Cursor::Address(0) }
    }

    fn row(&self) -> (r: usize)
        ensures
            r == cursor_row(self.cursor),
    {
        match self.cursor {
            Cursor::Address(row) | Cursor::Memory(_, row) | Cursor::Text(_, row) => row,
        }
    }

    fn set_row(&mut self, row: usize)
        ensures
            *final(self) == (MemoryWindow { cursor: with_row(old(self).cursor, row), ..*old(self) }),
    {
        self.cursor = match self.cursor {
            Cursor::Address(_) => Cursor::Address(row),
            Cursor::Memory(col, _) => Cursor::Memory(col, row),
            Cursor::Text(col, _) => Cursor::Text(col, row),
        };
    }

    fn key_up_step(&mut self, alt: bool)
        requires
            old(self).wf(),
        ensures
            final(self).wf(),
            *final(self) == old(self).key_up(alt),
            final(self).cols == old(self).cols && final(self).rows == old(self).rows,
    {
        reveal(MemoryWindow::key_up);
        let row = self.row();
        if alt {
            self.set_row(0);
        } else {
            if row == 0 {
                self.addr = self.addr.wrapping_sub(self.cols as u16);
            }
            self.set_row(if row == 0 { 0 } else { row - 1 });
        }
    }

    fn key_down_step(&mut self, alt: bool, start: usize)
        requires
            old(self).wf(),
        ensures
            final(self).wf(),
            *final(self) == old(self).key_down(alt, start),
            final(self).cols == old(self).cols && final(self).rows == old(self).rows,
    {
        reveal(MemoryWindow::key_down);
        let row = self.row();
        let last = self.rows - 1;
        if alt {
            self.set_row(last);
        } else {
            if start == last {
                self.addr = self.addr.wrapping_add(self.cols as u16);
            }
            self.set_row(if row + 1 < last { row + 1 } else { last });
        }
    }

    fn key_left_step(&mut self, alt: bool)
        requires
            old(self).wf(),
        ensures
            final(self).wf(),
            *final(self) == old(self).key_left(alt),
            final(self).cols == old(self).cols && final(self).rows == old(self).rows,
    {
        reveal(MemoryWindow::key_left);
        self.cursor = match self.cursor {
            Cursor::Memory(col, row) => if col == 0 { Cursor::Address(row) }
                else if alt { Cursor::Memory(0, row) } else { Cursor::Memory(col - 1, row) },
            Cursor::Text(col, row) => if col == 0 { Cursor::Memory(if alt { 0 } else { self.cols - 1 }, row) }
                else if alt { Cursor::Text(0, row) } else { Cursor::Text(col - 1, row) },
            c => c,
        };
    }

    fn key_right_step(&mut self, alt: bool)
        requires
            old(self).wf(),
        ensures
            final(self).wf(),
            *final(self) == old(self).key_right(alt),
            final(self).cols == old(self).cols && final(self).rows == old(self).rows,
    {
        reveal(MemoryWindow::key_right);
        let last = self.cols - 1;
        self.cursor = match self.cursor {
            Cursor::Address(row) => Cursor::Memory(if alt { last } else { 0 }, row),
            Cursor::Memory(col, row) => if col == last { Cursor::Text(if alt { last } else { 0 }, row) }
                else if alt { Cursor::Memory(last, row) } else { Cursor::Memory(col + 1, row) },
            Cursor::Text(col, row) => if alt { Cursor::Text(last, row) }
                else if col < last { Cursor::Text(col + 1, row) } else { Cursor::Text(col, row) },
        };
    }

    fn page_bytes(&self) -> (r: u16)
        requires
            self.wf(),
        ensures
            r == self.page(),
    {
        ((self.cols * self.rows) % 0x10000) as u16
    }

    /// Handle the keys pressed at once
    pub fn handle_keyboard(&mut self, keys: Keys)
        requires
            old(self).wf(),
        ensures
            final(self).wf(),
            *final(self) == old(self).after_keys(keys),
    {
        let row = self.row();
        self.arrows(keys, row);
        self.pages(keys);
        if keys.home {
            self.cursor = Cursor::Address(row);
        }
        if keys.end {
            self.cursor = Cursor::Text(self.cols - 1, row);
        }
    }

    fn arrows(&mut self, keys: Keys, start: usize)
        requires
            old(self).wf(),
        ensures
            final(self).wf(),
            *final(self) == old(self).after_arrows(keys, start),
            final(self).cols == old(self).cols && final(self).rows == old(self).rows,
    {
        if keys.up {
            self.key_up_step(keys.alt);
        }
        if keys.down {
            self.key_down_step(keys.alt, start);
        }
        if keys.left {
            self.key_left_step(keys.alt);
        }
        if keys.right {
            self.key_right_step(keys.alt);
        }
    }

    fn pages(&mut self, keys: Keys)
        requires
            old(self).wf(),
        ensures
            *final(self) == old(self).after_pages(keys),
    {
        let page = self.page_bytes();
        if keys.page_up {
            self.addr = self.addr.wrapping_sub(page);
        }
        if keys.page_down {
            self.addr = self.addr.wrapping_add(page);
        }
    }

    /// Address of the first byte of a row
    pub fn row_addr(&self, row: usize) -> (r: u16)
        requires
            self.wf(),
            row < self.rows,
        ensures
            r == wrap_add(self.addr, ((row * self.cols) % 0x10000) as int),
    {
        proof {
            let (cols, rows) = (self.cols as int, self.rows as int);
            assert(row * cols <= rows * cols) by (nonlinear_arith)
                requires row < rows, 0 <= cols;
        }
        self.addr.wrapping_add(((row * self.cols) % 0x10000) as u16)
    }
}

/// Keys of a press with only the given arrows and page keys
pub open spec fn press(up: bool, down: bool, page_up: bool, page_down: bool) -> Keys {
    Keys { up, down, left: false, right: false, page_up, page_down, home: false, end: false, alt: false }
}

/// Law: Page Down, then Page Up, shows the view as it was
pub proof fn lemma_page_round_trip(w: MemoryWindow)
    requires
        w.wf(),
    ensures
        w.after_keys(press(false, false, false, true)).after_keys(press(false, false, true, false)) == w,
{
}

/// Law: away from the top and bottom rows, an arrow down then an arrow up bring the cursor back
/// without scrolling
pub proof fn lemma_down_up(w: MemoryWindow)
    requires
        w.wf(),
        0 < cursor_row(w.cursor) < w.rows - 1,
    ensures
        w.after_keys(press(false, true, false, false)).after_keys(press(true, false, false, false)) == w,
{
    reveal(MemoryWindow::key_up);
    reveal(MemoryWindow::key_down);
}

/// Character shown for a byte: printable ASCII as itself, anything else as a dot
pub fn display_char(byte: u8) -> (c: char)
    ensures
        c == if 0x20 <= byte <= 0x7e { byte as char } else { '.' },
{
    if 0x20 <= byte && byte <= 0x7e { byte as char } else { '.' }
}

} // verus!
