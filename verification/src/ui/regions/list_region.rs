//! The region that shows the log.

use vstd::prelude::*;
use vstd::string::*;
use crate::text::{byte_length, char_at, chars_of};
use crate::ui::event::{Action, Event, MouseKind};
use crate::ui::framebuffer::{blank, Cell, FrameBuffer};
use crate::ui::regions::region::{
    build_border, draw_cells, drawn, fits_frame, has_room, region_cells, RegionData, RegionType,
};
use crate::ui::tui::{Colour, Log};
use crate::utils::utils::{bounds_loc, in_bounds, micro_secs_now};

verus! {

/// For how many microseconds after a scroll step further steps are
/// dropped.
pub const SCROLL_DEBOUNCE_MICRO: u128 = 50_000;

/// A framed window on the lines of the log, which can be scrolled both
/// ways.
#[derive(Debug, PartialEq)]
pub struct ListRegion {
    pub name: String,
    pub x: u16,
    pub y: u16,
    pub width: u16,
    pub height: u16,
    pub border_colour: Colour,
    pub focused_border_colour: Colour,
    /// The lines of the log.
    pub data: Vec<Log>,
    /// The length in bytes of the longest line.
    pub longest_log: usize,
    pub focused: bool,
    /// The time of the last scroll step and the first line that is shown.
    pub vertical_scroll: (u128, usize),
    /// The time of the last scroll step and the first column that is shown.
    pub horizontal_scroll: (u128, usize),
}

/// The cell of the character `c` in the colour `colour`.
pub open spec fn plain_cell(c: char, colour: Colour) -> Cell {
    Cell { char: c, colour: colour, bold: false }
}

/// The cell at position `i` of a window that is `inner_width` wide and
/// shows the lines `data` from line `first_line` and column `first_column`
/// on: a character of a line in the colour of the line's severity, or an
/// empty cell where the lines have none.
pub open spec fn log_cell(
    data: Seq<Log>,
    first_line: int,
    first_column: int,
    inner_width: int,
    i: int,
) -> Cell {
    let line = i / inner_width + first_line;
    let column = i % inner_width + first_column;
    if 0 <= line < data.len() && 0 <= column < data[line].content@.len() {
        plain_cell(data[line].content@[column], data[line].severity.colour_spec())
    } else {
        blank()
    }
}

/// The place of a scroll bar after a step. `last` is the time of the step
/// before and the place it led to, `extent` the number of lines or columns
/// that there are, and `span` the height or width of the region. A step
/// less than `SCROLL_DEBOUNCE_MICRO` after the one before is dropped unless
/// `ignore_debounce` is set; so is every step while everything fits in the
/// region, and a step that would lead below 0 or more than two places
/// beyond the point where the last line or column enters the region.
pub open spec fn scrolled(
    last: (u128, usize),
    extent: usize,
    span: u16,
    change: isize,
    ignore_debounce: bool,
    now: u128,
) -> (u128, usize) {
    if !ignore_debounce && last.0 <= now && now - last.0 < SCROLL_DEBOUNCE_MICRO {
        last
    } else if extent == 0 || extent < span {
        last
    } else if 0 <= last.1 + change <= extent - span + 2 && last.1 + change <= usize::MAX {
        (now, (last.1 + change) as usize)
    } else {
        last
    }
}

fn scroll(
    last: (u128, usize),
    extent: usize,
    span: u16,
    change: isize,
    ignore_debounce: bool,
    now: u128,
) -> (r: (u128, usize))
    ensures
        r == scrolled(last, extent, span, change, ignore_debounce, now),
{
    if !ignore_debounce && last.0 <= now && now - last.0 < SCROLL_DEBOUNCE_MICRO {
        return last;
    }
    if extent == 0 || extent < span as usize {
        return last;
    }
    let new: i128 = last.1 as i128 + change as i128;
    let limit: i128 = extent as i128 - span as i128 + 2;
    if 0 <= new && new <= limit && new <= usize::MAX as i128 {
        (now, new as usize)
    } else {
        last
    }
}

/// The first line that is shown when the log is scrolled to its end: the
/// last line stands two places above the lower edge of the region.
pub open spec fn bottom(lines: int, height: int) -> int {
    if lines - height + 2 > 0 {
        lines - height + 2
    } else {
        0
    }
}

/// The greatest length in bytes among the lines `logs` and `sofar`.
pub open spec fn longest(logs: Seq<Log>, sofar: int) -> int
    decreases logs.len(),
{
    if logs.len() == 0 {
        sofar
    } else {
        let before = longest(logs.drop_last(), sofar);
        let here = byte_length(logs.last().content@) as int;
        if here > before {
            here
        } else {
            before
        }
    }
}

impl ListRegion {
    /// The content of the region.
    pub open spec fn inner_spec(&self) -> Seq<Cell> {
        Seq::new(
            ((self.width - 2) * (self.height - 2)) as nat,
            |i: int|
                log_cell(
                    self.data@,
                    self.vertical_scroll.1 as int,
                    self.horizontal_scroll.1 as int,
                    self.width - 2,
                    i,
                ),
        )
    }

    /// The colour of the border.
    pub open spec fn frame_colour(&self) -> Colour {
        if self.focused {
            self.focused_border_colour
        } else {
            self.border_colour
        }
    }

    /// The buffer of the region: its content inside its border.
    pub open spec fn region_spec(&self) -> Seq<Cell> {
        region_cells(
            self.width as int,
            self.height as int,
            self.name@,
            self.frame_colour(),
            self.focused,
            self.inner_spec(),
        )
    }

    /// The region after a step of the vertical scroll bar at the time `now`.
    pub open spec fn scrolled_vertically(self, change: isize, ignore_debounce: bool, now: u128)
        -> ListRegion {
        ListRegion {
            vertical_scroll: scrolled(
                self.vertical_scroll,
                self.data.len(),
                self.height,
                change,
                ignore_debounce,
                now,
            ),
            ..self
        }
    }

    /// The region after a step of the horizontal scroll bar at the time
    /// `now`.
    pub open spec fn scrolled_horizontally(self, change: isize, ignore_debounce: bool, now: u128)
        -> ListRegion {
        ListRegion {
            horizontal_scroll: scrolled(
                self.horizontal_scroll,
                self.longest_log,
                self.width,
                change,
                ignore_debounce,
                now,
            ),
            ..self
        }
    }

    /// Moves the first line that is shown by `change` at the time `now`.
    pub fn scroll_vertical_at(&mut self, change: isize, ignore_debounce: bool, now: u128)
        ensures
            *final(self) == old(self).scrolled_vertically(change, ignore_debounce, now),
    {
        self.vertical_scroll = scroll(
            self.vertical_scroll,
            self.data.len(),
            self.height,
            change,
            ignore_debounce,
            now,
        );
    }

    /// Moves the first column that is shown by `change` at the time `now`.
    pub fn scroll_horizontal_at(&mut self, change: isize, ignore_debounce: bool, now: u128)
        ensures
            *final(self) == old(self).scrolled_horizontally(change, ignore_debounce, now),
    {
        self.horizontal_scroll = scroll(
            self.horizontal_scroll,
            self.longest_log,
            self.width,
            change,
            ignore_debounce,
            now,
        );
    }

    /// Moves the first line that is shown by `change`, at the time that the
    /// clock gives.
    pub fn change_vertical_scroll(&mut self, change: isize, ignore_debounce: bool)
        ensures
            exists|now: u128|
                *final(self) == #[trigger] old(self).scrolled_vertically(
                    change,
                    ignore_debounce,
                    now,
                ),
    {
        let now = micro_secs_now();
        self.scroll_vertical_at(change, ignore_debounce, now);
    }

    /// Moves the first column that is shown by `change`, at the time that
    /// the clock gives.
    pub fn change_horizontal_scroll(&mut self, change: isize, ignore_debounce: bool)
        ensures
            exists|now: u128|
                *final(self) == #[trigger] old(self).scrolled_horizontally(
                    change,
                    ignore_debounce,
                    now,
                ),
    {
        let now = micro_secs_now();
        self.scroll_horizontal_at(change, ignore_debounce, now);
    }

    /// The content of the region: the part of the log that the scroll bars
    /// select.
    pub fn build_inner_buffer(&self) -> (r: Vec<Cell>)
        requires
            has_room(self.width, self.height),
        ensures
            r@ == self.inner_spec(),
            r@.len() == (self.width - 2) * (self.height - 2),
    {
        let inner_width = (self.width - 2) as usize;
        let inner_height = (self.height - 2) as usize;
        let ghost w = (self.width - 2) as int;
        let ghost first_line = self.vertical_scroll.1 as int;
        let ghost first_column = self.horizontal_scroll.1 as int;
        let mut buffer: Vec<Cell> = Vec::new();
        let mut y: usize = 0;
        while y < inner_height
            invariant
                y <= inner_height,
                inner_width == w,
                w == self.width - 2,
                inner_height == self.height - 2,
                first_line == self.vertical_scroll.1,
                first_column == self.horizontal_scroll.1,
                has_room(self.width, self.height),
                buffer@.len() == y * w,
                forall|i: int|
                    0 <= i < y * w ==> #[trigger] buffer@[i] == log_cell(
                        self.data@,
                        first_line,
                        first_column,
                        w,
                        i,
                    ),
            decreases inner_height - y,
        {
            let at: usize = match self.vertical_scroll.1.checked_add(y) {
                Some(at) => at,
                None => self.data.len(),
            };
            let (line, colour) = if at < self.data.len() {
                (Some(chars_of(self.data[at].content.as_str())), self.data[at].severity.colour())
            } else {
                (None, Colour::White)
            };
            let mut x: usize = 0;
            while x < inner_width
                invariant
                    x <= inner_width,
                    y < inner_height,
                    inner_width == w,
                    w == self.width - 2,
                    inner_height == self.height - 2,
                    first_line == self.vertical_scroll.1,
                    first_column == self.horizontal_scroll.1,
                    has_room(self.width, self.height),
                    match line {
                        Some(chars) => y + first_line < self.data@.len() && chars@
                            == self.data@[y + first_line].content@ && colour
                            == self.data@[y + first_line].severity.colour_spec(),
                        None => y + first_line >= self.data@.len(),
                    },
                    buffer@.len() == y * w + x,
                    forall|i: int|
                        0 <= i < y * w + x ==> #[trigger] buffer@[i] == log_cell(
                            self.data@,
                            first_line,
                            first_column,
                            w,
                            i,
                        ),
                decreases inner_width - x,
            {
                proof {
                    let i = y * w + x;
                    assert(i % w == x && i / w == y) by (nonlinear_arith)
                        requires
                            i == y * w + x,
                            0 <= x < w,
                            0 <= y,
                    ;
                }
                let cell = match &line {
                    Some(chars) => match self.horizontal_scroll.1.checked_add(x) {
                        Some(at) => if at < chars.len() {
                            Cell { char: char_at(chars.as_slice(), at), colour, bold: false }
                        } else {
                            Cell { char: ' ', colour: Colour::White, bold: false }
                        },
                        None => Cell { char: ' ', colour: Colour::White, bold: false },
                    },
                    None => Cell { char: ' ', colour: Colour::White, bold: false },
                };
                buffer.push(cell);
                x += 1;
            }
            assert((y + 1) * w == y * w + w) by (nonlinear_arith);
            y += 1;
        }
        assert((self.height - 2) * w == w * (self.height - 2)) by (nonlinear_arith);
        assert((self.width - 2) * (self.height - 2) >= 0) by (nonlinear_arith)
            requires
                self.width >= 2,
                self.height >= 2,
        ;
        assert(buffer@ =~= self.inner_spec());
        buffer
    }

    /// The buffer of the region: its content inside its border.
    pub fn build_region_buffer(&self) -> (r: Vec<Cell>)
        requires
            has_room(self.width, self.height),
        ensures
            r@ == self.region_spec(),
    {
        let inner = self.build_inner_buffer();
        let name = chars_of(self.name.as_str());
        let colour = if self.focused {
            self.focused_border_colour
        } else {
            self.border_colour
        };
        build_border(self.width, self.height, name.as_slice(), colour, self.focused, &inner)
    }

    /// Draws the region into the frame buffer.
    pub fn draw(&self, fb: &mut FrameBuffer)
        requires
            has_room(self.width, self.height),
            fits_frame(self.x, self.y, self.width, self.height, old(fb)),
        ensures
            final(fb).width == old(fb).width,
            final(fb).height == old(fb).height,
            final(fb).cells@ == drawn(
                old(fb).cells@,
                self.width as int,
                self.y as int,
                self.region_spec(),
            ),
    {
        let content = self.build_region_buffer();
        draw_cells(self.x, self.y, self.width, self.height, &content, fb);
    }

    /// What an event at the time `now` does to the region: the wheel of the
    /// mouse, turned over the region, moves the scroll bars by one place,
    /// and the control key lifts the debounce. Up and down move the first
    /// line by -1 and 1, left and right the first column by 1 and -1.
    pub open spec fn after_event(self, event: Event, now: u128) -> ListRegion {
        match event {
            Event::Mouse { kind, column, row, control } => if in_bounds(
                self.x,
                self.y,
                self.width,
                self.height,
                column,
                row,
            ) {
                match kind {
                    MouseKind::ScrollUp => self.scrolled_vertically(-1isize, control, now),
                    MouseKind::ScrollDown => self.scrolled_vertically(1, control, now),
                    MouseKind::ScrollLeft => self.scrolled_horizontally(1, control, now),
                    MouseKind::ScrollRight => self.scrolled_horizontally(-1isize, control, now),
                    _ => self,
                }
            } else {
                self
            },
            _ => self,
        }
    }

    /// Deals with an event at the time `now`.
    pub fn handle_event_at(&mut self, event: Event, now: u128) -> (r: Action)
        ensures
            r == Action::Internal,
            *final(self) == old(self).after_event(event, now),
    {
        match event {
            Event::Mouse { kind, column, row, control } => {
                if self.bounds_loc(column, row) {
                    match kind {
                        MouseKind::ScrollUp => self.scroll_vertical_at(-1, control, now),
                        MouseKind::ScrollDown => self.scroll_vertical_at(1, control, now),
                        MouseKind::ScrollLeft => self.scroll_horizontal_at(1, control, now),
                        MouseKind::ScrollRight => self.scroll_horizontal_at(-1, control, now),
                        _ => {},
                    }
                }
                Action::Internal
            },
            _ => Action::Internal,
        }
    }

    /// Deals with an event at the time that the clock gives.
    pub fn handle_event(&mut self, event: Event, lb: &mut Vec<Log>) -> (r: Action)
        ensures
            r == Action::Internal,
            final(lb)@ == old(lb)@,
            exists|now: u128| *final(self) == #[trigger] old(self).after_event(event, now),
    {
        let now = micro_secs_now();
        self.handle_event_at(event, now)
    }

    /// Whether the place in column `x` of row `y` lies in the region.
    pub fn bounds_loc(&self, x: u16, y: u16) -> (r: bool)
        ensures
            r == in_bounds(self.x, self.y, self.width, self.height, x, y),
    {
        bounds_loc(self.x, self.y, self.width, self.height, x, y)
    }

    pub fn set_focus(&mut self, focus: bool)
        ensures
            *final(self) == (ListRegion { focused: focus, ..*old(self) }),
    {
        self.focused = focus;
    }

    pub fn _type(&self) -> (r: RegionType)
        ensures
            r == RegionType::List,
    {
        RegionType::List
    }

    /// Takes lines for the log: they are appended, the length of the
    /// longest line is brought up to date, and the log is scrolled to its
    /// end. Other data is dropped.
    pub fn send_data(&mut self, data: RegionData)
        ensures
            final(self).name == old(self).name,
            final(self).x == old(self).x,
            final(self).y == old(self).y,
            final(self).width == old(self).width,
            final(self).height == old(self).height,
            final(self).border_colour == old(self).border_colour,
            final(self).focused_border_colour == old(self).focused_border_colour,
            final(self).focused == old(self).focused,
            final(self).horizontal_scroll == old(self).horizontal_scroll,
            match data {
                RegionData::List(logs) => {
                    &&& final(self).data@ == old(self).data@ + logs@
                    &&& final(self).longest_log == longest(logs@, old(self).longest_log as int)
                    &&& final(self).vertical_scroll.0 == old(self).vertical_scroll.0
                    &&& final(self).vertical_scroll.1 == (if bottom(
                        final(self).data@.len() as int,
                        old(self).height as int,
                    ) <= usize::MAX {
                        bottom(final(self).data@.len() as int, old(self).height as int)
                    } else {
                        usize::MAX as int
                    })
                },
                _ => {
                    &&& final(self).data@ == old(self).data@
                    &&& final(self).longest_log == old(self).longest_log
                    &&& final(self).vertical_scroll == old(self).vertical_scroll
                },
            },
    {
        match data {
            RegionData::List(mut logs) => {
                let mut i: usize = 0;
                while i < logs.len()
                    invariant
                        i <= logs.len(),
                        self.longest_log == longest(
                            logs@.take(i as int),
                            old(self).longest_log as int,
                        ),
                        self.name == old(self).name,
                        self.x == old(self).x,
                        self.y == old(self).y,
                        self.width == old(self).width,
                        self.height == old(self).height,
                        self.border_colour == old(self).border_colour,
                        self.focused_border_colour == old(self).focused_border_colour,
                        self.focused == old(self).focused,
                        self.horizontal_scroll == old(self).horizontal_scroll,
                        self.vertical_scroll == old(self).vertical_scroll,
                        self.data == old(self).data,
                    decreases logs.len() - i,
                {
                    proof {
                        assert(logs@.take(i + 1).drop_last() =~= logs@.take(i as int));
                    }
                    let length = logs[i].content.as_str().len();
                    if length > self.longest_log {
                        self.longest_log = length;
                    }
                    i += 1;
                }
                proof {
                    assert(logs@.take(logs.len() as int) =~= logs@);
                }
                self.data.append(&mut logs);
                let lines = self.data.len() as u128 + 2;
                let first: usize = if lines > self.height as u128 {
                    let at = lines - self.height as u128;
                    if at > usize::MAX as u128 {
                        usize::MAX
                    } else {
                        at as usize
                    }
                } else {
                    0
                };
                self.vertical_scroll = (self.vertical_scroll.0, first);
            },
            _ => {},
        }
    }

    /// Moves and resizes the region.
    pub fn set_geometry(&mut self, x: u16, y: u16, width: u16, height: u16)
        ensures
            *final(self) == (ListRegion { x: x, y: y, width: width, height: height, ..*old(self) }),
    {
        self.width = width;
        self.height = height;
        self.x = x;
        self.y = y;
    }
}

} // verus!
