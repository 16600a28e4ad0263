//! What the regions share: their kinds, the data they take, and the border
//! that is drawn around each.

use vstd::prelude::*;
use crate::text::char_at;
use crate::ui::framebuffer::{Cell, FrameBuffer};
use crate::ui::tui::{Colour, Log};

verus! {

/// The column of a region's top border in which its name begins.
pub const REGION_NAME_PADDING: u16 = 2;

/// The kind of a region.
#[derive(Clone, Copy, Debug, PartialEq, Eq, Structural)]
pub enum RegionType {
    Input,
    Table,
    List,
}

/// Data that is sent to a region.
#[derive(Debug, PartialEq)]
pub enum RegionData {
    /// The lines of a table.
    Table(Vec<String>),
    /// Lines for the log.
    List(Vec<Log>),
}

/// The character of the border at the place in column `x` of row `y` of a
/// region that is `width` wide and `height` high and has the name `name`;
/// `None` for a place inside the border. The corners are round, and the
/// name stands in the top border from the third column on.
pub open spec fn border_char(x: int, y: int, width: int, height: int, name: Seq<char>) -> Option<
    char,
> {
    if y == 0 {
        if x == 0 {
            Some('╭')
        } else if x == width - 1 {
            Some('╮')
        } else if x >= REGION_NAME_PADDING && x - REGION_NAME_PADDING < name.len() {
            Some(name[x - REGION_NAME_PADDING])
        } else {
            Some('─')
        }
    } else if y == height - 1 {
        if x == 0 {
            Some('╰')
        } else if x == width - 1 {
            Some('╯')
        } else {
            Some('─')
        }
    } else if x == 0 || x == width - 1 {
        Some('│')
    } else {
        None
    }
}

/// The cell at position `i` of a region's buffer: a cell of the border in
/// the colour `colour`, bold where the region has the focus, or the cell of
/// the content `inner` that lies at that place.
pub open spec fn region_cell(
    i: int,
    width: int,
    height: int,
    name: Seq<char>,
    colour: Colour,
    bold: bool,
    inner: Seq<Cell>,
) -> Cell {
    let x = i % width;
    let y = i / width;
    match border_char(x, y, width, height, name) {
        Some(c) => Cell { char: c, colour: colour, bold: bold },
        None => inner[(y - 1) * (width - 2) + (x - 1)],
    }
}

/// The buffer of a region: its cells row by row.
pub open spec fn region_cells(
    width: int,
    height: int,
    name: Seq<char>,
    colour: Colour,
    bold: bool,
    inner: Seq<Cell>,
) -> Seq<Cell> {
    Seq::new(
        (width * height) as nat,
        |i: int| region_cell(i, width, height, name, colour, bold, inner),
    )
}

/// Whether a region of this size has a content of `(width - 2) * (height - 2)`
/// cells whose number fits in sixteen bits.
pub open spec fn has_room(width: u16, height: u16) -> bool {
    width >= 2 && height >= 2 && (width - 2) * (height - 2) <= u16::MAX
}

/// Whether a region of this size has room for a content.
pub fn check_room(width: u16, height: u16) -> (r: bool)
    ensures
        r == has_room(width, height),
{
    if width < 2 || height < 2 {
        return false;
    }
    assert((width - 2) * (height - 2) <= 0xffff * 0xffff) by (nonlinear_arith)
        requires
            0 <= width - 2 <= 0xffff,
            0 <= height - 2 <= 0xffff,
    ;
    ((width - 2) as u32) * ((height - 2) as u32) <= 0xffff
}

/// The number of cells inside the border.
pub fn inner_size(width: u16, height: u16) -> (r: usize)
    requires
        has_room(width, height),
    ensures
        r == (width - 2) * (height - 2),
{
    assert((width - 2) * (height - 2) >= 0) by (nonlinear_arith)
        requires
            width >= 2,
            height >= 2,
    ;
    ((width - 2) * (height - 2)) as usize
}

/// Draws the border around the content `inner`.
pub fn build_border(
    width: u16,
    height: u16,
    name: &[char],
    colour: Colour,
    bold: bool,
    inner: &Vec<Cell>,
) -> (r: Vec<Cell>)
    requires
        has_room(width, height),
        inner@.len() == (width - 2) * (height - 2),
    ensures
        r@ == region_cells(width as int, height as int, name@, colour, bold, inner@),
{
    let mut buffer: Vec<Cell> = Vec::new();
    let mut y: u16 = 0;
    let ghost w = width as int;
    let ghost h = height as int;
    while y < height
        invariant
            y <= height,
            w == width,
            h == height,
            has_room(width, height),
            inner@.len() == (w - 2) * (h - 2),
            buffer@.len() == y * w,
            forall|i: int|
                0 <= i < y * w ==> #[trigger] buffer@[i] == region_cell(
                    i,
                    w,
                    h,
                    name@,
                    colour,
                    bold,
                    inner@,
                ),
        decreases height - y,
    {
        let mut x: u16 = 0;
        while x < width
            invariant
                x <= width,
                y < height,
                w == width,
                h == height,
                has_room(width, height),
                inner@.len() == (w - 2) * (h - 2),
                buffer@.len() == y * w + x,
                forall|i: int|
                    0 <= i < y * w + x ==> #[trigger] buffer@[i] == region_cell(
                        i,
                        w,
                        h,
                        name@,
                        colour,
                        bold,
                        inner@,
                    ),
            decreases width - x,
        {
            proof {
                let i = y * w + x;
                assert(i % w == x && i / w == y) by (nonlinear_arith)
                    requires
                        i == y * w + x,
                        0 <= x < w,
                        0 <= y,
                ;
            }
            let cell = if y == 0 {
                if x == 0 {
                    Cell { char: '╭', colour, bold }
                } else if x == width - 1 {
                    Cell { char: '╮', colour, bold }
                } else if x >= REGION_NAME_PADDING && ((x - REGION_NAME_PADDING) as usize)
                    < name.len() {
                    Cell { char: char_at(name, (x - REGION_NAME_PADDING) as usize), colour, bold }
                } else {
                    Cell { char: '─', colour, bold }
                }
            } else if y == height - 1 {
                if x == 0 {
                    Cell { char: '╰', colour, bold }
                } else if x == width - 1 {
                    Cell { char: '╯', colour, bold }
                } else {
                    Cell { char: '─', colour, bold }
                }
            } else if x == 0 || x == width - 1 {
                Cell { char: '│', colour, bold }
            } else {
                assert(0 <= (y - 1) * (w - 2) + (x - 1) < (w - 2) * (h - 2)) by (nonlinear_arith)
                    requires
                        1 <= y <= h - 2,
                        1 <= x <= w - 2,
                ;
                assert((y - 1) * (w - 2) >= 0) by (nonlinear_arith)
                    requires
                        1 <= y,
                        2 <= w,
                ;
                inner[((y - 1) as usize) * ((width - 2) as usize) + ((x - 1) as usize)]
            };
            buffer.push(cell);
            x += 1;
        }
        assert((y + 1) * w == y * w + w) by (nonlinear_arith);
        y += 1;
    }
    assert(h * w == w * h) by (nonlinear_arith);
    assert(buffer@ =~= region_cells(w, h, name@, colour, bold, inner@));
    buffer
}

/// Whether a region at column `x` of row `y`, `width` wide and `height`
/// high, can be drawn into the frame buffer `fb`: it is as wide as the
/// buffer, lies inside it, and the buffer's places can be counted in
/// sixteen bits.
pub open spec fn fits_frame(x: u16, y: u16, width: u16, height: u16, fb: &FrameBuffer) -> bool {
    &&& fb.wf()
    &&& width > 0
    &&& x == 0
    &&& width == fb.width
    &&& y + height <= fb.height
    &&& fb.width * fb.height <= u16::MAX
}

/// Whether a region at column `x` of row `y`, `width` wide and `height`
/// high, can be drawn into the frame buffer `fb`.
pub fn check_fits_frame(x: u16, y: u16, width: u16, height: u16, fb: &FrameBuffer) -> (r: bool)
    ensures
        r == fits_frame(x, y, width, height, fb),
{
    assert(fb.width * fb.height <= 0xffff * 0xffff) by (nonlinear_arith)
        requires
            0 <= fb.width <= 0xffff,
            0 <= fb.height <= 0xffff,
    ;
    fb.is_wf() && width > 0 && x == 0 && width == fb.width && (y as u32) + (height as u32) <= (
    fb.height as u32) && (fb.width as u32) * (fb.height as u32) <= 0xffff
}

/// The frame buffer `cells`, `width` wide, with the rows from `y` on
/// replaced by the `content` of a region of the same width.
pub open spec fn drawn(cells: Seq<Cell>, width: int, y: int, content: Seq<Cell>) -> Seq<Cell> {
    Seq::new(
        cells.len(),
        |i: int|
            if y * width <= i < y * width + content.len() {
                content[i - y * width]
            } else {
                cells[i]
            },
    )
}

/// Copies the buffer `content` of a region into the frame buffer, cell by
/// cell: the cell at position `loc` goes to column `loc % width` of row
/// `loc / width` of the region.
pub fn draw_cells(x: u16, y: u16, width: u16, height: u16, content: &Vec<Cell>, fb: &mut FrameBuffer)
    requires
        fits_frame(x, y, width, height, old(fb)),
        content@.len() == width * height,
    ensures
        final(fb).width == old(fb).width,
        final(fb).height == old(fb).height,
        final(fb).cells@ == drawn(old(fb).cells@, width as int, y as int, content@),
{
    let ghost w = width as int;
    let ghost before = fb.cells@;
    let mut loc: usize = 0;
    proof {
        assert(y * w + width * height <= fb.width * fb.height) by (nonlinear_arith)
            requires
                y + height <= fb.height,
                w == width,
                width == fb.width,
                width >= 0,
        ;
    }
    while loc < content.len()
        invariant
            loc <= content@.len(),
            content@.len() == width * height,
            w == width,
            width > 0,
            x == 0,
            fb.width == width,
            fb.width == old(fb).width,
            fb.height == old(fb).height,
            before == old(fb).cells@,
            fb.cells@.len() == before.len(),
            before.len() == fb.width * fb.height,
            y * w + width * height <= fb.width * fb.height,
            fb.width * fb.height <= u16::MAX,
            y + height <= fb.height,
            forall|i: int|
                0 <= i < before.len() ==> #[trigger] fb.cells@[i] == (if y * w <= i < y * w + loc {
                    content@[i - y * w]
                } else {
                    before[i]
                }),
        decreases content.len() - loc,
    {
        let local_y = (loc / (width as usize)) as u16;
        let local_x = (loc % (width as usize)) as u16;
        proof {
            assert(loc == (loc as int / w) * w + loc as int % w && 0 <= loc as int % w < w)
                by (nonlinear_arith)
                requires
                    w > 0,
                    loc >= 0,
            ;
            assert((local_y + y) * w + local_x == y * w + loc) by (nonlinear_arith)
                requires
                    loc == local_y * w + local_x,
            ;
            assert(y * w >= 0) by (nonlinear_arith)
                requires
                    y >= 0,
                    w >= 0,
            ;
            assert(local_y < height) by (nonlinear_arith)
                requires
                    loc == local_y * w + local_x,
                    loc < w * height,
                    w > 0,
                    local_x >= 0,
                    local_y >= 0,
            ;
        }
        fb.put(local_x + x, local_y + y, content[loc]);
        loc += 1;
    }
    assert(fb.cells@ =~= drawn(before, w, y as int, content@));
}

} // verus!
