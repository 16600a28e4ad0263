//! The region that shows the result of a query as a table.

use vstd::prelude::*;
use vstd::string::*;
use crate::query::data::KeyAccess;
use crate::query::display::{build_table, build_table_spec};
use crate::query::error::{QueryError, QueryErrorView};
use crate::text::{char_at, chars_of, texts_of};
use crate::ui::event::Event;
use crate::ui::framebuffer::{blank, Cell, FrameBuffer};
use crate::ui::regions::list_region::plain_cell;
use crate::ui::regions::region::{
    build_border, check_room, draw_cells, drawn, fits_frame, has_room, region_cells, RegionData,
    RegionType,
};
use crate::ui::tui::Colour;
use crate::utils::utils::{bounds_loc, in_bounds};

verus! {

/// A framed table of text lines.
#[derive(Debug, PartialEq)]
pub struct TableRegion {
    pub x: u16,
    pub y: u16,
    pub width: u16,
    pub height: u16,
    pub border_colour: Colour,
    pub focused_border_colour: Colour,
    /// The lines of the table.
    pub formatted_table: Vec<String>,
    pub focused: bool,
}

/// The cell at position `i` of a window that is `inner_width` wide and
/// shows the lines `lines` from its upper left corner on.
pub open spec fn table_cell(lines: Seq<Seq<char>>, inner_width: int, i: int) -> Cell {
    let line = i / inner_width;
    let column = i % inner_width;
    if 0 <= line < lines.len() && 0 <= column < lines[line].len() {
        plain_cell(lines[line][column], Colour::White)
    } else {
        blank()
    }
}

impl TableRegion {
    /// Whether the region has room for its table: no more lines than rows
    /// inside the border, and no line longer than a row.
    pub open spec fn drawable(&self) -> bool {
        &&& has_room(self.width, self.height)
        &&& self.formatted_table@.len() <= self.height - 2
        &&& forall|i: int|
            0 <= i < self.formatted_table@.len() ==> (#[trigger] self.formatted_table@[i])@.len()
                <= self.width - 2
    }

    /// Whether the region has room for its table.
    pub fn is_drawable(&self) -> (r: bool)
        ensures
            r == self.drawable(),
    {
        if !check_room(self.width, self.height) {
            return false;
        }
        if self.formatted_table.len() > (self.height - 2) as usize {
            return false;
        }
        let mut i: usize = 0;
        while i < self.formatted_table.len()
            invariant
                i <= self.formatted_table@.len(),
                self.width >= 2,
                forall|j: int|
                    0 <= j < i ==> (#[trigger] self.formatted_table@[j])@.len() <= self.width - 2,
            decreases self.formatted_table.len() - i,
        {
            let line = chars_of(self.formatted_table[i].as_str());
            if line.len() > (self.width - 2) as usize {
                return false;
            }
            i += 1;
        }
        true
    }

    /// The content of the region.
    pub open spec fn inner_spec(&self) -> Seq<Cell> {
        Seq::new(
            ((self.width - 2) * (self.height - 2)) as nat,
            |i: int| table_cell(texts_of(self.formatted_table@), self.width - 2, i),
        )
    }

    /// The colour of the border.
    pub open spec fn frame_colour(&self) -> Colour {
        if self.focused {
            self.focused_border_colour
        } else {
            self.border_colour
        }
    }

    /// The buffer of the region: its content inside its border.
    pub open spec fn region_spec(&self) -> Seq<Cell> {
        region_cells(
            self.width as int,
            self.height as int,
            Seq::<char>::empty(),
            self.frame_colour(),
            self.focused,
            self.inner_spec(),
        )
    }

    /// Fills the region with the table of the attributes `attributes` of
    /// the records `data`. Where a record lacks an attribute the region
    /// keeps what it has.
    pub fn data<T: KeyAccess>(&mut self, data: Vec<T>, attributes: Vec<String>) -> (r: Result<
        (),
        QueryError,
    >)
        requires
            data@.len() + 2 <= usize::MAX,
        ensures
            match r {
                Ok(_) => build_table_spec(data@, texts_of(attributes@)) == Ok::<
                    Seq<Seq<char>>,
                    QueryErrorView,
                >(texts_of(final(self).formatted_table@)) && *final(self) == (TableRegion {
                    formatted_table: final(self).formatted_table,
                    ..*old(self)
                }),
                Err(e) => build_table_spec(data@, texts_of(attributes@)) == Err::<
                    Seq<Seq<char>>,
                    QueryErrorView,
                >(e@) && *final(self) == *old(self),
            },
    {
        match build_table(&data, &attributes) {
            Ok(lines) => {
                self.formatted_table = lines;
                Ok(())
            },
            Err(e) => Err(e),
        }
    }

    /// The content of the region: the lines of the table from the upper
    /// left corner on.
    pub fn build_inner_buffer(&self) -> (r: Vec<Cell>)
        requires
            self.drawable(),
        ensures
            r@ == self.inner_spec(),
            r@.len() == (self.width - 2) * (self.height - 2),
    {
        let inner_width = (self.width - 2) as usize;
        let inner_height = (self.height - 2) as usize;
        let ghost w = (self.width - 2) as int;
        let ghost lines = texts_of(self.formatted_table@);
        let mut buffer: Vec<Cell> = Vec::new();
        let mut y: usize = 0;
        while y < inner_height
            invariant
                y <= inner_height,
                inner_width == w,
                w == self.width - 2,
                inner_height == self.height - 2,
                lines == texts_of(self.formatted_table@),
                has_room(self.width, self.height),
                buffer@.len() == y * w,
                forall|i: int| 0 <= i < y * w ==> #[trigger] buffer@[i] == table_cell(lines, w, i),
            decreases inner_height - y,
        {
            let line: Option<Vec<char>> = if y < self.formatted_table.len() {
                Some(chars_of(self.formatted_table[y].as_str()))
            } else {
                None
            };
            let mut x: usize = 0;
            while x < inner_width
                invariant
                    x <= inner_width,
                    y < inner_height,
                    inner_width == w,
                    w == self.width - 2,
                    inner_height == self.height - 2,
                    lines == texts_of(self.formatted_table@),
                    has_room(self.width, self.height),
                    match line {
                        Some(chars) => y < lines.len() && chars@ == lines[y as int],
                        None => y >= lines.len(),
                    },
                    buffer@.len() == y * w + x,
                    forall|i: int|
                        0 <= i < y * w + x ==> #[trigger] buffer@[i] == table_cell(lines, w, i),
                decreases inner_width - x,
            {
                proof {
                    let i = y * w + x;
                    assert(i % w == x && i / w == y) by (nonlinear_arith)
                        requires
                            i == y * w + x,
                            0 <= x < w,
                            0 <= y,
                    ;
                }
                let cell = match &line {
                    Some(chars) => if x < chars.len() {
                        Cell { char: char_at(chars.as_slice(), x), colour: Colour::White, bold: false }
                    } else {
                        Cell { char: ' ', colour: Colour::White, bold: false }
                    },
                    None => Cell { char: ' ', colour: Colour::White, bold: false },
                };
                buffer.push(cell);
                x += 1;
            }
            assert((y + 1) * w == y * w + w) by (nonlinear_arith);
            y += 1;
        }
        assert((self.height - 2) * w == w * (self.height - 2)) by (nonlinear_arith);
        assert((self.width - 2) * (self.height - 2) >= 0) by (nonlinear_arith)
            requires
                self.width >= 2,
                self.height >= 2,
        ;
        assert(buffer@ =~= self.inner_spec());
        buffer
    }

    /// The buffer of the region: its content inside its border.
    pub fn build_region_buffer(&self) -> (r: Vec<Cell>)
        requires
            self.drawable(),
        ensures
            r@ == self.region_spec(),
    {
        let inner = self.build_inner_buffer();
        let name: Vec<char> = Vec::new();
        let colour = if self.focused {
            self.focused_border_colour
        } else {
            self.border_colour
        };
        assert(name@ =~= Seq::<char>::empty());
        build_border(self.width, self.height, name.as_slice(), colour, self.focused, &inner)
    }

    /// Draws the region into the frame buffer.
    pub fn draw(&self, fb: &mut FrameBuffer)
        requires
            self.drawable(),
            fits_frame(self.x, self.y, self.width, self.height, old(fb)),
        ensures
            final(fb).width == old(fb).width,
            final(fb).height == old(fb).height,
            final(fb).cells@ == drawn(
                old(fb).cells@,
                self.width as int,
                self.y as int,
                self.region_spec(),
            ),
    {
        let content = self.build_region_buffer();
        draw_cells(self.x, self.y, self.width, self.height, &content, fb);
    }

    /// A table region does nothing on an event.
    pub fn handle_event(&mut self, event: Event)
        ensures
            *final(self) == *old(self),
    {
    }

    /// Whether the place in column `x` of row `y` lies in the region.
    pub fn bounds_loc(&self, x: u16, y: u16) -> (r: bool)
        ensures
            r == in_bounds(self.x, self.y, self.width, self.height, x, y),
    {
        bounds_loc(self.x, self.y, self.width, self.height, x, y)
    }

    pub fn set_focus(&mut self, focus: bool)
        ensures
            *final(self) == (TableRegion { focused: focus, ..*old(self) }),
    {
        self.focused = focus;
    }

    pub fn _type(&self) -> (r: RegionType)
        ensures
            r == RegionType::Table,
    {
        RegionType::Table
    }

    /// Takes the lines of a table. Other data is dropped.
    pub fn send_data(&mut self, data: RegionData)
        ensures
            match data {
                RegionData::Table(lines) => *final(self) == (TableRegion {
                    formatted_table: lines,
                    ..*old(self)
                }),
                _ => *final(self) == *old(self),
            },
    {
        match data {
            RegionData::Table(lines) => {
                self.formatted_table = lines;
            },
            _ => {},
        }
    }
}

} // verus!
