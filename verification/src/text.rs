//! The text-mode console: eight pages of 80 by 25 cells in video memory, each cell
//! a character byte followed by an attribute byte.
//!
//! Video memory is a `MemoryRegion` that starts at `TEXT_MODE_START`; the console's
//! writes to the CRT controller are returned as port operations.
use vstd::prelude::*;
use crate::ios::{PortOp, outb, io_delay};
use crate::mem::MemoryRegion;

verus! {

pub const CURSOR_START: u8 = 13;
pub const CURSOR_END: u8 = 14;
pub const VGA_CRT_ADDR: usize = 0x3D4;
pub const VGA_CRT_DATA: usize = 0x3D5;
pub const VGA_CRT_CURSTART: u8 = 10;
pub const VGA_CRT_CUREND: u8 = 11;
pub const VGA_CRT_CURADDH: u8 = 14;
pub const VGA_CRT_CURADDL: u8 = 15;
pub const TEXT_MODE_START: usize = 0xB8000;
pub const TEXT_DEF_ATTRIBUTE: u8 = 0x07;
/// Bytes of video memory that the console may touch.
pub const VRAM_SIZE: u64 = 0x8000;

/// One page of the console: where its cells are, its size, the cursor and the
/// attribute of what is written next.
#[derive(Debug, Clone, Copy)]
pub struct Screen {
    pub buffer: usize,
    pub width: usize,
    pub height: usize,
    pub x: usize,
    pub y: usize,
    pub attr: u8,
}

/// The console: the page in use and the state of every page.
pub struct Writer {
    page: usize,
    scrn: Vec<Screen>,
}

/// The state of page `i` when the console starts.
pub open spec fn initial_screen(i: int) -> Screen {
    Screen {
        buffer: (0xB8000 + 0x800 * i) as usize,
        width: 80,
        height: 25,
        x: 0,
        y: 0,
        attr: TEXT_DEF_ATTRIBUTE,
    }
}

/// Page `i` has its fixed place and size, and its cursor is at most one past the
/// last column and row.
pub open spec fn screen_ok(s: Screen, i: int) -> bool {
    &&& s.buffer == 0xB8000 + 0x800 * i
    &&& s.width == 80
    &&& s.height == 25
    &&& s.x <= 80
    &&& s.y <= 25
}

/// The writes that set the shape of the hardware cursor.
pub open spec fn cursor_size_ops(start: u8, end: u8) -> Seq<PortOp> {
    seq![
        PortOp::Out(VGA_CRT_CURSTART, VGA_CRT_ADDR),
        PortOp::Delay,
        PortOp::Out(start, VGA_CRT_DATA),
        PortOp::Delay,
        PortOp::Out(VGA_CRT_CUREND, VGA_CRT_ADDR),
        PortOp::Delay,
        PortOp::Out(end, VGA_CRT_DATA),
    ]
}

/// The writes that move the hardware cursor to cell `addr` of the screen.
pub open spec fn cursor_ops(addr: int) -> Seq<PortOp> {
    cursor_size_ops(1, 0) + seq![
        PortOp::Delay,
        PortOp::Out(VGA_CRT_CURADDH, VGA_CRT_ADDR),
        PortOp::Delay,
        PortOp::Out(((addr / 256) % 256) as u8, VGA_CRT_DATA),
        PortOp::Delay,
        PortOp::Out(VGA_CRT_CURADDL, VGA_CRT_ADDR),
        PortOp::Delay,
        PortOp::Out((addr % 256) as u8, VGA_CRT_DATA),
    ] + cursor_size_ops(CURSOR_START, CURSOR_END)
}

/// The cell number of the cursor of `s`.
pub open spec fn cursor_cell(s: Screen) -> int {
    s.y * s.width + s.x
}

/// Where the cursor goes when `locate` is asked for column `xx` and row `yy`.
pub open spec fn located(s: Screen, xx: int, yy: int) -> Screen {
    Screen {
        x: (if xx > s.width {
            s.width - 1
        } else {
            xx
        }) as usize,
        y: (if yy > s.height {
            s.height - 1
        } else {
            yy
        }) as usize,
        ..s
    }
}

/// `v` with the cell at byte `off` holding character `ch` and attribute `attr`.
pub open spec fn put_cell(v: Seq<u8>, off: int, ch: u8, attr: u8) -> Seq<u8> {
    v.update(off, ch).update(off + 1, attr)
}

/// `v` with the `n` cells from byte `off` holding `ch` and `attr`.
pub open spec fn fill_cells(v: Seq<u8>, off: int, n: int, ch: u8, attr: u8) -> Seq<u8> {
    Seq::new(
        v.len(),
        |j: int|
            if off <= j < off + 2 * n {
                if (j - off) % 2 == 0 {
                    ch
                } else {
                    attr
                }
            } else {
                v[j]
            },
    )
}

/// `v` with the `n` bytes from `dst` replaced by the `n` bytes of `v` from `src`.
pub open spec fn copy_within(v: Seq<u8>, src: int, dst: int, n: int) -> Seq<u8> {
    Seq::new(v.len(), |j: int| if dst <= j < dst + n { v[src + j - dst] } else { v[j] })
}

/// The first `k` line moves of scrolling the page whose cells start at byte `base`:
/// move `k` copies 80 cells to the byte 80 before where it read them.
pub open spec fn scroll_lines(v: Seq<u8>, base: int, k: int) -> Seq<u8>
    decreases k,
{
    if k <= 0 {
        v
    } else {
        copy_within(scroll_lines(v, base, k - 1), base + 80 * k, base + 80 * (k - 1), 160)
    }
}

/// Video memory after the page at `base` scrolls up: 25 line moves, then the 80
/// cells after them are blanked.
pub open spec fn scrolled(v: Seq<u8>, base: int, attr: u8) -> Seq<u8> {
    fill_cells(scroll_lines(v, base, 25), base + 80 * 25, 80, 0x20, attr)
}

/// The first `k` line blankings of clearing the page at `base`: blanking `k` fills
/// 80 cells from byte `80 * k`.
pub open spec fn cleared(v: Seq<u8>, base: int, attr: u8, k: int) -> Seq<u8>
    decreases k,
{
    if k <= 0 {
        v
    } else {
        fill_cells(cleared(v, base, attr, k - 1), base + 80 * (k - 1), 80, 0x20, attr)
    }
}

/// A byte that is drawn as a character.
pub open spec fn printable(ch: u8) -> bool {
    0x20 <= ch <= 0x7e
}

/// The screen after `ch` is written to it.
pub open spec fn put_screen(s: Screen, ch: u8) -> Screen {
    if ch == 0x0A {
        Screen {
            x: 0,
            y: (if s.y < 24 {
                s.y + 1
            } else {
                s.y as int
            }) as usize,
            ..s
        }
    } else if ch == 0x08 {
        if s.x > 0 {
            Screen { x: (s.x - 1) as usize, ..s }
        } else {
            s
        }
    } else if printable(ch) {
        if s.x < 79 {
            Screen { x: (s.x + 1) as usize, ..s }
        } else {
            Screen {
                x: 0,
                y: (if s.y < 24 {
                    s.y + 1
                } else {
                    s.y as int
                }) as usize,
                ..s
            }
        }
    } else {
        s
    }
}

/// Video memory after `ch` is written to the screen `s` whose cells start at byte
/// `base`.
pub open spec fn put_vram(v: Seq<u8>, base: int, s: Screen, ch: u8) -> Seq<u8> {
    if ch == 0x0A {
        if s.y < 24 {
            v
        } else {
            scrolled(v, base, s.attr)
        }
    } else if ch == 0x08 {
        if s.x > 0 {
            put_cell(v, base + s.y * 160 + (s.x - 1) * 2, 0x20, s.attr)
        } else {
            v
        }
    } else if printable(ch) {
        let v1 = put_cell(v, base + s.y * 160 + s.x * 2, ch, s.attr);
        if s.x < 79 || s.y < 24 {
            v1
        } else {
            scrolled(v1, base, s.attr)
        }
    } else {
        v
    }
}

/// The screen after the bytes `bs` are written to it.
pub open spec fn put_all_screen(s: Screen, bs: Seq<u8>) -> Screen
    decreases bs.len(),
{
    if bs.len() == 0 {
        s
    } else {
        put_screen(put_all_screen(s, bs.drop_last()), bs.last())
    }
}

/// Video memory after the bytes `bs` are written to the screen `s` at `base`.
pub open spec fn put_all_vram(v: Seq<u8>, base: int, s: Screen, bs: Seq<u8>) -> Seq<u8>
    decreases bs.len(),
{
    if bs.len() == 0 {
        v
    } else {
        put_vram(
            put_all_vram(v, base, s, bs.drop_last()),
            base,
            put_all_screen(s, bs.drop_last()),
            bs.last(),
        )
    }
}

/// The port writes made while the bytes `bs` are written to the screen `s`: a cursor
/// update after each byte.
pub open spec fn put_all_ops(s: Screen, bs: Seq<u8>) -> Seq<PortOp>
    decreases bs.len(),
{
    if bs.len() == 0 {
        Seq::empty()
    } else {
        put_all_ops(s, bs.drop_last()) + cursor_ops(cursor_cell(put_all_screen(s, bs)))
    }
}

/// Where the cells of page `page` start in video memory.
pub open spec fn page_base(page: int) -> int {
    0x800 * page
}

/// Video memory of the console: `VRAM_SIZE` bytes from `TEXT_MODE_START`.
pub open spec fn vram_ok(v: &MemoryRegion) -> bool {
    v.base() == TEXT_MODE_START && v@.len() == VRAM_SIZE
}

fn put_cell_at(vram: &mut MemoryRegion, off: usize, ch: u8, attr: u8)
    requires
        off + 2 <= old(vram)@.len(),
    ensures
        final(vram).base() == old(vram).base(),
        final(vram)@ == put_cell(old(vram)@, off as int, ch, attr),
{
    let _n = vram.len_usize();
    vram.write_u8(off as u64, ch);
    vram.write_u8(off as u64 + 1, attr);
}

fn fill_line(vram: &mut MemoryRegion, off: usize, n: usize, ch: u8, attr: u8)
    requires
        off + 2 * n <= old(vram)@.len(),
    ensures
        final(vram).base() == old(vram).base(),
        final(vram)@ == fill_cells(old(vram)@, off as int, n as int, ch, attr),
{
    let ghost v0 = vram@;
    let len = vram.len_usize();
    let mut j: usize = 0;
    while j < n
        invariant
            len == v0.len(),
            off + 2 * n <= v0.len(),
            j <= n,
            vram.base() == old(vram).base(),
            v0 == old(vram)@,
            vram@ == fill_cells(v0, off as int, j as int, ch, attr),
        decreases n - j,
    {
        let ghost before = vram@;
        put_cell_at(vram, off + 2 * j, ch, attr);
        assert(vram@ =~= fill_cells(v0, off as int, j + 1, ch, attr));
        j = j + 1;
    }
}

fn xfer_line(vram: &mut MemoryRegion, src: usize, dst: usize, n: usize)
    requires
        src + n <= old(vram)@.len(),
        dst + n <= old(vram)@.len(),
    ensures
        final(vram).base() == old(vram).base(),
        final(vram)@ == copy_within(old(vram)@, src as int, dst as int, n as int),
{
    let ghost v0 = vram@;
    let len = vram.len_usize();
    let mut line: Vec<u8> = Vec::new();
    let mut j: usize = 0;
    while j < n
        invariant
            len == v0.len(),
            src + n <= v0.len(),
            v0 == vram@,
            j <= n,
            line@ == v0.subrange(src as int, src + j),
        decreases n - j,
    {
        line.push(vram.byte_at(src + j));
        j = j + 1;
    }
    let mut k: usize = 0;
    while k < n
        invariant
            len == v0.len(),
            dst + n <= v0.len(),
            src + n <= v0.len(),
            k <= n,
            line@ == v0.subrange(src as int, src + n),
            vram.base() == old(vram).base(),
            v0 == old(vram)@,
            vram@ == Seq::new(
                v0.len(),
                |i: int| if dst <= i < dst + k { v0[src + i - dst] } else { v0[i] },
            ),
        decreases n - k,
    {
        vram.write_u8((dst + k) as u64, line[k]);
        assert(vram@ =~= Seq::new(
            v0.len(),
            |i: int| if dst <= i < dst + k + 1 { v0[src + i - dst] } else { v0[i] },
        ));
        k = k + 1;
    }
    assert(vram@ =~= copy_within(v0, src as int, dst as int, n as int));
}

impl Writer {
    /// The page in use.
    pub closed spec fn spec_page(&self) -> usize {
        self.page
    }

    /// The state of the eight pages.
    pub closed spec fn screens(&self) -> Seq<Screen> {
        self.scrn@
    }

    /// The page in use is one of the eight, or one past them (what `select_page(8)`
    /// leaves), and every page is where it belongs.
    pub open spec fn wf(&self) -> bool {
        &&& self.spec_page() <= 8
        &&& self.screens().len() == 8
        &&& forall|i: int| 0 <= i < 8 ==> screen_ok(#[trigger] self.screens()[i], i)
    }

    /// The screen of the page in use.
    pub open spec fn current(&self) -> Screen {
        self.screens()[self.spec_page() as int]
    }

    /// The console as it starts: page 0, every cursor at the top left.
    pub fn new() -> (r: Self)
        ensures
            r.wf(),
            r.spec_page() == 0,
            forall|i: int| 0 <= i < 8 ==> #[trigger] r.screens()[i] == initial_screen(i),
    {
        let mut scrn: Vec<Screen> = Vec::new();
        let mut i: usize = 0;
        while i < 8
            invariant
                i <= 8,
                scrn@.len() == i,
                forall|j: int| 0 <= j < i ==> #[trigger] scrn@[j] == initial_screen(j),
            decreases 8 - i,
        {
            scrn.push(
                Screen {
                    buffer: TEXT_MODE_START + 0x800 * i,
                    width: 80,
                    height: 25,
                    x: 0,
                    y: 0,
                    attr: TEXT_DEF_ATTRIBUTE,
                },
            );
            i = i + 1;
        }
        Writer { page: 0, scrn }
    }

    fn cursor_size(ops: &mut Vec<PortOp>, start: u8, end: u8)
        ensures
            final(ops)@ == old(ops)@ + cursor_size_ops(start, end),
    {
        outb(ops, VGA_CRT_CURSTART, VGA_CRT_ADDR);
        io_delay(ops);
        outb(ops, start, VGA_CRT_DATA);
        io_delay(ops);
        outb(ops, VGA_CRT_CUREND, VGA_CRT_ADDR);
        io_delay(ops);
        outb(ops, end, VGA_CRT_DATA);
        assert(final(ops)@ =~= old(ops)@ + cursor_size_ops(start, end));
    }

    /// The port writes that show the hardware cursor at the cursor of the page in use.
    pub fn cursor_pos(&self) -> (r: Vec<PortOp>)
        requires
            self.wf(),
            self.spec_page() < 8,
        ensures
            r@ == cursor_ops(cursor_cell(self.current())),
    {
        let page = self.page;
        let s = self.scrn[page];
        assert(screen_ok(self.screens()[page as int], page as int));
        let addr = s.y * s.width + s.x;
        let mut ops: Vec<PortOp> = Vec::new();
        Self::cursor_size(&mut ops, 1, 0);
        io_delay(&mut ops);
        outb(&mut ops, VGA_CRT_CURADDH, VGA_CRT_ADDR);
        io_delay(&mut ops);
        assert((addr >> 8) & 0xFF == (addr / 256) % 256) by (bit_vector);
        assert(addr & 0xFF == addr % 256) by (bit_vector);
        outb(&mut ops, ((addr >> 8) & 0xFF) as u8, VGA_CRT_DATA);
        io_delay(&mut ops);
        outb(&mut ops, VGA_CRT_CURADDL, VGA_CRT_ADDR);
        io_delay(&mut ops);
        outb(&mut ops, (addr & 0xFF) as u8, VGA_CRT_DATA);
        Self::cursor_size(&mut ops, CURSOR_START, CURSOR_END);
        assert(ops@ =~= cursor_ops(cursor_cell(self.current())));
        ops
    }

    /// Switch to page `num`; a number past 8 selects the last page.
    pub fn select_page(&mut self, num: usize)
        requires
            old(self).wf(),
        ensures
            final(self).wf(),
            final(self).spec_page() == (if num > 8 {
                7
            } else {
                num
            }),
            final(self).screens() == old(self).screens(),
    {
        if num > 8 {
            self.page = 7;
        } else {
            self.page = num;
        }
    }

    /// Set the attribute of what is written next on the page in use.
    pub fn color(&mut self, attr: u8)
        requires
            old(self).wf(),
            old(self).spec_page() < 8,
        ensures
            final(self).wf(),
            final(self).spec_page() == old(self).spec_page(),
            final(self).screens() == old(self).screens().update(
                old(self).spec_page() as int,
                Screen { attr, ..old(self).current() },
            ),
    {
        let page = self.page;
        let mut s = self.scrn[page];
        s.attr = attr;
        self.scrn.set(page, s);
        assert(forall|i: int| 0 <= i < 8 ==> screen_ok(#[trigger] self.screens()[i], i) || i == page);
        assert(screen_ok(old(self).screens()[page as int], page as int));
    }

    /// Move the cursor of the page in use to column `xx` and row `yy`; a column or
    /// row past the last one moves it to the last.
    pub fn locate(&mut self, xx: usize, yy: usize)
        requires
            old(self).wf(),
            old(self).spec_page() < 8,
        ensures
            final(self).wf(),
            final(self).spec_page() == old(self).spec_page(),
            final(self).screens() == old(self).screens().update(
                old(self).spec_page() as int,
                located(old(self).current(), xx as int, yy as int),
            ),
    {
        let page = self.page;
        let mut s = self.scrn[page];
        assert(screen_ok(old(self).screens()[page as int], page as int));
        if xx > s.width {
            s.x = s.width - 1;
        } else {
            s.x = xx;
        }
        if yy > s.height {
            s.y = s.height - 1;
        } else {
            s.y = yy;
        }
        self.scrn.set(page, s);
    }

    /// Move the cursor of the page in use to the position saved in the first two
    /// bytes of `zero_page`.
    pub fn restore(&mut self, zero_page: &MemoryRegion)
        requires
            old(self).wf(),
            old(self).spec_page() < 8,
            zero_page@.len() >= 2,
        ensures
            final(self).wf(),
            final(self).spec_page() == old(self).spec_page(),
            final(self).screens() == old(self).screens().update(
                old(self).spec_page() as int,
                located(old(self).current(), zero_page@[0] as int, zero_page@[1] as int),
            ),
    {
        let xx = zero_page.read_u8(0x00);
        let yy = zero_page.read_u8(0x01);
        self.locate(xx as usize, yy as usize);
    }

    /// Save the cursor of the page in use in the first two bytes of `zero_page`.
    pub fn store(&self, zero_page: &mut MemoryRegion)
        requires
            self.wf(),
            self.spec_page() < 8,
            old(zero_page)@.len() >= 2,
        ensures
            final(zero_page).base() == old(zero_page).base(),
            final(zero_page)@ == old(zero_page)@.update(0, self.current().x as u8).update(
                1,
                self.current().y as u8,
            ),
    {
        let page = self.page;
        let s = self.scrn[page];
        assert(screen_ok(self.screens()[page as int], page as int));
        let xx: u8 = s.x as u8;
        let yy: u8 = s.y as u8;
        zero_page.write_u8(0x00, xx);
        zero_page.write_u8(0x01, yy);
    }
    fn scrollup(&self, vram: &mut MemoryRegion)
        requires
            self.wf(),
            self.spec_page() < 8,
            vram_ok(old(vram)),
        ensures
            vram_ok(final(vram)),
            final(vram)@ == scrolled(
                old(vram)@,
                page_base(self.spec_page() as int),
                self.current().attr,
            ),
    {
        let page = self.page;
        let s = self.scrn[page];
        assert(screen_ok(self.screens()[page as int], page as int));
        let base = s.buffer - TEXT_MODE_START;
        let h = s.height;
        let w = s.width;
        let ghost v0 = vram@;
        let mut cnt: usize = 0;
        let mut dst = base;
        let mut src = dst + w;
        while cnt < h
            invariant
                base == page_base(page as int),
                page < 8,
                h == 25,
                w == 80,
                cnt <= h,
                dst == base + 80 * cnt,
                src == dst + 80,
                vram_ok(vram),
                v0 == old(vram)@,
                vram@ == scroll_lines(v0, base as int, cnt as int),
            decreases h - cnt,
        {
            xfer_line(vram, src, dst, 2 * w);
            src = src + w;
            dst = dst + w;
            cnt = cnt + 1;
        }
        fill_line(vram, dst, w, 0x20, s.attr);
    }

    /// Blank the page in use with its attribute, one line of 80 cells after another,
    /// each line starting 80 bytes after the previous one.
    pub fn clear(&self, vram: &mut MemoryRegion)
        requires
            self.wf(),
            self.spec_page() < 8,
            vram_ok(old(vram)),
        ensures
            vram_ok(final(vram)),
            final(vram)@ == cleared(
                old(vram)@,
                page_base(self.spec_page() as int),
                self.current().attr,
                25,
            ),
    {
        let page = self.page;
        let s = self.scrn[page];
        assert(screen_ok(self.screens()[page as int], page as int));
        let base = s.buffer - TEXT_MODE_START;
        let h = s.height;
        let w = s.width;
        let ghost v0 = vram@;
        let mut dst = base;
        let mut cnt: usize = 0;
        while cnt < h
            invariant
                base == page_base(page as int),
                page < 8,
                h == 25,
                w == 80,
                cnt <= h,
                dst == base + 80 * cnt,
                vram_ok(vram),
                v0 == old(vram)@,
                vram@ == cleared(v0, base as int, s.attr, cnt as int),
            decreases h - cnt,
        {
            fill_line(vram, dst, w, 0x20, s.attr);
            dst = dst + w;
            cnt = cnt + 1;
        }
    }

    /// Write `ch` on the page in use: a line feed moves to the start of the next line,
    /// a backspace blanks the cell before the cursor, a printable character is drawn
    /// and the cursor moves on; the page scrolls when the cursor leaves its last row.
    /// Returns the port writes that move the hardware cursor.
    pub fn putchar(&mut self, vram: &mut MemoryRegion, ch: u8) -> (r: Vec<PortOp>)
        requires
            old(self).wf(),
            old(self).spec_page() < 8,
            vram_ok(old(vram)),
        ensures
            final(self).wf(),
            vram_ok(final(vram)),
            final(self).spec_page() == old(self).spec_page(),
            final(self).screens() == old(self).screens().update(
                old(self).spec_page() as int,
                put_screen(old(self).current(), ch),
            ),
            final(vram)@ == put_vram(
                old(vram)@,
                page_base(old(self).spec_page() as int),
                old(self).current(),
                ch,
            ),
            r@ == cursor_ops(cursor_cell(put_screen(old(self).current(), ch))),
    {
        let page = self.page;
        let mut s = self.scrn[page];
        assert(screen_ok(old(self).screens()[page as int], page as int));
        let h = s.height;
        let w = s.width;
        let base = s.buffer - TEXT_MODE_START;
        if ch == 0x0A {
            s.x = 0;
            if s.y < h - 1 {
                s.y = s.y + 1;
            } else {
                self.scrollup(vram);
            }
        } else if ch == 0x08 {
            if s.x > 0 {
                s.x = s.x - 1;
                let dst = base + s.y * w * 2 + s.x * 2;
                put_cell_at(vram, dst, 0x20, s.attr);
            }
        } else if 0x20 <= ch && ch <= 0x7e {
            let dst = base + s.y * w * 2 + s.x * 2;
            put_cell_at(vram, dst, ch, s.attr);
            if s.x < w - 1 {
                s.x = s.x + 1;
            } else {
                s.x = 0;
                if s.y < h - 1 {
                    s.y = s.y + 1;
                } else {
                    self.scrollup(vram);
                }
            }
        }
        self.scrn.set(page, s);
        assert(self.screens() =~= old(self).screens().update(
            page as int,
            put_screen(old(self).current(), ch),
        ));
        self.cursor_pos()
    }
}

/// Write the bytes `s` (an already formatted message) on the page in use: take the
/// cursor saved in `zero_page`, write each byte, and save the cursor again. Returns
/// the port writes that move the hardware cursor.
pub fn _print(
    writer: &mut Writer,
    vram: &mut MemoryRegion,
    zero_page: &mut MemoryRegion,
    s: &[u8],
) -> (r: Vec<PortOp>)
    requires
        old(writer).wf(),
        old(writer).spec_page() < 8,
        vram_ok(old(vram)),
        old(zero_page)@.len() >= 2,
    ensures
        ({
            let page = old(writer).spec_page() as int;
            let s0 = located(old(writer).current(), old(zero_page)@[0] as int, old(zero_page)@[1] as int);
            let s1 = put_all_screen(s0, s@);
            &&& final(writer).wf()
            &&& final(writer).spec_page() == page
            &&& final(writer).screens() == old(writer).screens().update(page, s1)
            &&& vram_ok(final(vram))
            &&& final(vram)@ == put_all_vram(old(vram)@, page_base(page), s0, s@)
            &&& final(zero_page)@ == old(zero_page)@.update(0, s1.x as u8).update(1, s1.y as u8)
            &&& final(zero_page).base() == old(zero_page).base()
            &&& r@ == put_all_ops(s0, s@)
        }),
{
    writer.restore(zero_page);
    let ghost page = writer.spec_page() as int;
    let ghost s0 = writer.current();
    let ghost scr0 = writer.screens();
    let ghost v0 = vram@;
    let mut ops: Vec<PortOp> = Vec::new();
    let mut i: usize = 0;
    while i < s.len()
        invariant
            i <= s@.len(),
            writer.wf(),
            writer.spec_page() == page,
            0 <= page < 8,
            scr0.len() == 8,
            writer.screens() == scr0.update(page, put_all_screen(s0, s@.subrange(0, i as int))),
            vram_ok(vram),
            vram@ == put_all_vram(v0, page_base(page), s0, s@.subrange(0, i as int)),
            ops@ == put_all_ops(s0, s@.subrange(0, i as int)),
        decreases s@.len() - i,
    {
        let ghost pre = s@.subrange(0, i as int);
        let ghost next = s@.subrange(0, i + 1);
        assert(next.drop_last() =~= pre);
        assert(next.last() == s@[i as int]);
        let more = writer.putchar(vram, s[i]);
        let mut k: usize = 0;
        let ghost ops0 = ops@;
        while k < more.len()
            invariant
                k <= more@.len(),
                ops@ == ops0 + more@.subrange(0, k as int),
            decreases more@.len() - k,
        {
            ops.push(more[k]);
            assert(ops@ =~= ops0 + more@.subrange(0, k + 1));
            k = k + 1;
        }
        assert(more@.subrange(0, more@.len() as int) =~= more@);
        assert(writer.screens() =~= scr0.update(page, put_all_screen(s0, next)));
        i = i + 1;
    }
    assert(s@.subrange(0, s@.len() as int) =~= s@);
    writer.store(zero_page);
    ops
}

/// Law: a backspace undoes the cursor move of a printable character written before the
/// last column: the screen is as it was.
pub proof fn lemma_backspace_undoes(s: Screen, ch: u8)
    requires
        printable(ch),
        s.x < 79,
    ensures
        put_screen(put_screen(s, ch), 0x08) == s,
{
}

/// Law: writing keeps the cursor of a page within one past its last column and row.
pub proof fn lemma_cursor_stays_on_page(s: Screen, i: int, ch: u8)
    requires
        screen_ok(s, i),
    ensures
        screen_ok(put_screen(s, ch), i),
{
}

/// Law: a line feed moves no cell unless the cursor is on the last row; there it
/// scrolls the page, leaving the line after the moved lines blank with the page's
/// attribute, and changes video memory exactly as a printable character does when
/// written to the last cell of the cursor's row (the last, or one past it) that already
/// shows it.
pub proof fn lemma_newline_scrolls(v: Seq<u8>, page: int, s: Screen, ch: u8)
    requires
        0 <= page < 8,
        v.len() == VRAM_SIZE,
        screen_ok(s, page),
        printable(ch),
    ensures
        s.y < 24 ==> put_vram(v, page_base(page), s, 0x0A) == v,
        s.y >= 24 ==> forall|j: int|
            0 <= j < 80 ==> {
                &&& #[trigger] put_vram(v, page_base(page), s, 0x0A)[page_base(page) + 2000 + 2 * j] == 0x20
                &&& put_vram(v, page_base(page), s, 0x0A)[page_base(page) + 2001 + 2 * j] == s.attr
            },
        s.y >= 24 && v[page_base(page) + s.y * 160 + 158] == ch && v[page_base(page) + s.y * 160
            + 159] == s.attr ==> put_vram(v, page_base(page), s, 0x0A) == put_vram(
            v,
            page_base(page),
            Screen { x: 79, ..s },
            ch,
        ),
{
    let base = page_base(page);
    if s.y >= 24 {
        let w = put_vram(v, base, s, 0x0A);
        assert(w == scrolled(v, base, s.attr));
        lemma_scroll_lines_len(v, base, 25);
        assert forall|j: int| 0 <= j < 80 implies {
            &&& #[trigger] w[base + 2000 + 2 * j] == 0x20
            &&& w[base + 2001 + 2 * j] == s.attr
        } by {
            assert((base + 2000 + 2 * j - (base + 2000)) % 2 == 0);
            assert((base + 2001 + 2 * j - (base + 2000)) % 2 == 1);
        }
        if v[base + s.y * 160 + 158] == ch && v[base + s.y * 160 + 159] == s.attr {
            assert(put_cell(v, base + s.y * 160 + 79 * 2, ch, s.attr) =~= v);
        }
    }
}

proof fn lemma_scroll_lines_len(v: Seq<u8>, base: int, k: int)
    ensures
        scroll_lines(v, base, k).len() == v.len(),
    decreases k,
{
    if k > 0 {
        lemma_scroll_lines_len(v, base, k - 1);
    }
}

} // verus!
