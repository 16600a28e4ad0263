//! The screen: the three regions, what an event does to them, and what has
//! to be written to the terminal to show a frame.

use vstd::prelude::*;
use vstd::string::*;
use crate::query::run::{StageView, TUIQueryStage};
use crate::text::{append_chars, chars_of, nat_text, string_of, u128_text};
use crate::ui::event::{Action, Event, Key, MouseKind};
use crate::ui::framebuffer::{Cell, FrameBuffer};
use crate::ui::regions::input_region::InputRegion;
use crate::ui::regions::list_region::ListRegion;
use crate::ui::regions::table_region::TableRegion;
use crate::ui::tui::Log;
use crate::utils::utils::{in_bounds, micro_secs_now};

verus! {

/// The regions of the interface, from the top of the screen down, and
/// whether the interface goes on.
#[derive(Debug, PartialEq)]
pub struct Screen {
    pub width: u16,
    pub height: u16,
    pub input: InputRegion,
    pub table: TableRegion,
    pub list: ListRegion,
    pub run: bool,
}

/// What has to be written to show the cell `cell` in column `x` of row
/// `y`: the escape sequence that moves the cursor there, the one that sets
/// the weight and the colour, and the character.
pub open spec fn cell_output(x: int, y: int, cell: Cell) -> Seq<char> {
    "\x1b["@ + nat_text((y + 1) as nat) + ";"@ + nat_text((x + 1) as nat) + "H\x1b["@ + (if cell.bold {
        "1"@
    } else {
        "22"@
    }) + ";"@ + cell.colour.code_spec() + seq![cell.char]
}

/// Whether a cell has to be written again: its character or its colour is
/// not what the frame before had.
pub open spec fn changed(cell: Cell, previous: Cell) -> bool {
    previous.colour != cell.colour || previous.char != cell.char
}

/// What has to be written for the first `n` cells of a frame that is
/// `width` wide, row by row.
pub open spec fn diff_spec(current: Seq<Cell>, previous: Seq<Cell>, width: int, n: nat) -> Seq<char>
    decreases n,
{
    if n == 0 || n > current.len() || n > previous.len() || width <= 0 {
        seq![]
    } else {
        let before = diff_spec(current, previous, width, (n - 1) as nat);
        if changed(current[n - 1], previous[n - 1]) {
            before + cell_output((n - 1) % width, (n - 1) / width, current[n - 1])
        } else {
            before
        }
    }
}

fn put(out: &mut Vec<char>, text: &str)
    ensures
        final(out)@ == old(out)@ + text@,
{
    let chars = chars_of(text);
    append_chars(out, chars.as_slice());
}

fn put_cell(out: &mut Vec<char>, x: u16, y: u16, cell: Cell)
    ensures
        final(out)@ == old(out)@ + cell_output(x as int, y as int, cell),
{
    put(out, "\x1b[");
    let row = u128_text(y as u128 + 1);
    append_chars(out, row.as_slice());
    put(out, ";");
    let column = u128_text(x as u128 + 1);
    append_chars(out, column.as_slice());
    put(out, "H\x1b[");
    if cell.bold {
        put(out, "1");
    } else {
        put(out, "22");
    }
    put(out, ";");
    let code = cell.colour.code();
    put(out, code.as_str());
    out.push(cell.char);
    assert(out@ =~= old(out)@ + cell_output(x as int, y as int, cell));
}

/// Whether two frames can be held against each other: both hold a cell
/// for each place, they are of one size, and their places can be counted in
/// sixteen bits.
pub open spec fn comparable(current: &FrameBuffer, previous: &FrameBuffer) -> bool {
    &&& current.wf()
    &&& previous.wf()
    &&& current.width == previous.width
    &&& current.height == previous.height
    &&& current.width * current.height <= u16::MAX
}

/// Whether two frames can be held against each other.
pub fn check_comparable(current: &FrameBuffer, previous: &FrameBuffer) -> (r: bool)
    ensures
        r == comparable(current, previous),
{
    assert(current.width * current.height <= 0xffff * 0xffff) by (nonlinear_arith)
        requires
            0 <= current.width <= 0xffff,
            0 <= current.height <= 0xffff,
    ;
    current.is_wf() && previous.is_wf() && current.width == previous.width && current.height
        == previous.height && (current.width as u32) * (current.height as u32) <= 0xffff
}

/// What has to be written to the terminal to turn the frame `previous`
/// into the frame `current`: the cells whose character or colour differs,
/// row by row.
pub fn flush_diff(current: &FrameBuffer, previous: &FrameBuffer) -> (r: String)
    requires
        comparable(current, previous),
    ensures
        r@ == diff_spec(
            current.cells@,
            previous.cells@,
            current.width as int,
            current.cells@.len(),
        ),
{
    let mut out: Vec<char> = Vec::new();
    let width = current.width;
    let height = current.height;
    let ghost w = width as int;
    let mut y: u16 = 0;
    while y < height
        invariant
            y <= height,
            w == width,
            width == current.width,
            height == current.height,
            current.wf(),
            previous.wf(),
            current.width == previous.width,
            current.height == previous.height,
            current.width * current.height <= u16::MAX,
            out@ == diff_spec(current.cells@, previous.cells@, w, (y * w) as nat),
        decreases height - y,
    {
        let mut x: u16 = 0;
        proof {
            assert(y * w >= 0) by (nonlinear_arith)
                requires
                    y >= 0,
                    w >= 0,
            ;
            assert((y + 1) * w <= height * w) by (nonlinear_arith)
                requires
                    y + 1 <= height,
                    w >= 0,
            ;
            assert((y + 1) * w == y * w + w) by (nonlinear_arith);
        }
        while x < width
            invariant
                x <= width,
                y < height,
                w == width,
                width == current.width,
                height == current.height,
                current.wf(),
                previous.wf(),
                current.width == previous.width,
                current.height == previous.height,
                current.width * current.height <= u16::MAX,
                y * w >= 0,
                y * w + w <= height * w,
                out@ == diff_spec(current.cells@, previous.cells@, w, (y * w + x) as nat),
            decreases width - x,
        {
            proof {
                let i = y * w + x;
                assert(i % w == x && i / w == y) by (nonlinear_arith)
                    requires
                        i == y * w + x,
                        0 <= x < w,
                        0 <= y,
                ;
            }
            let cell = current.get(x, y);
            let before = previous.get(x, y);
            if before.colour != cell.colour || before.char != cell.char {
                put_cell(&mut out, x, y, cell);
            }
            x += 1;
        }
        y += 1;
    }
    proof {
        assert(height * w == width * height) by (nonlinear_arith)
            requires
                w == width,
        ;
    }
    string_of(out.as_slice())
}

impl Screen {
    /// The screen after the left button of the mouse went down in column
    /// `column` of row `row`: the regions under that place have the focus,
    /// and no other.
    pub open spec fn focused_at(self, column: u16, row: u16) -> Screen {
        Screen {
            input: InputRegion {
                focused: in_bounds(
                    self.input.x,
                    self.input.y,
                    self.input.width,
                    self.input.height,
                    column,
                    row,
                ),
                ..self.input
            },
            table: TableRegion {
                focused: in_bounds(
                    self.table.x,
                    self.table.y,
                    self.table.width,
                    self.table.height,
                    column,
                    row,
                ),
                ..self.table
            },
            list: ListRegion {
                focused: in_bounds(
                    self.list.x,
                    self.list.y,
                    self.list.width,
                    self.list.height,
                    column,
                    row,
                ),
                ..self.list
            },
            ..self
        }
    }

    /// Whether an event ends the interface: the key `c` with the control
    /// key.
    pub open spec fn quits(event: Event) -> bool {
        event matches Event::Key { code: Key::Char('c'), control: true }
    }

    /// Whether `after` and `stage_after` are what an event at the time
    /// `now` makes of the screen and of the stage of the query.
    ///
    /// `c` with the control key ends the interface. Any other key goes to
    /// the input region; where that asks for a query to be run and none is
    /// running, the query is queued. The left button of the mouse gives the
    /// focus to the regions under it, and any other event of the mouse goes
    /// to the regions. A new size of the terminal is taken over.
    pub open spec fn event_outcome(
        self,
        stage: TUIQueryStage,
        event: Event,
        now: u128,
        after: Screen,
        stage_after: TUIQueryStage,
    ) -> bool {
        &&& (Screen::quits(event) ==> after == (Screen { run: false, ..self }) && stage_after
            == stage)
        &&& (!Screen::quits(event) ==> after.run == self.run)
        &&& match event {
            Event::Mouse { kind: MouseKind::LeftDown, column, row, .. } => after == self.focused_at(
                column,
                row,
            ) && stage_after == stage,
            Event::Mouse { .. } => after.list == self.list.after_event(event, now) && after.table
                == self.table && after.width == self.width && after.height == self.height
                && stage_after == stage,
            Event::Resize { columns, rows } => after == (Screen {
                width: columns,
                height: rows,
                ..self
            }) && stage_after == stage,
            Event::Key { code, .. } if !Screen::quits(event) => {
                &&& after.list == self.list
                &&& after.table == self.table
                &&& after.width == self.width
                &&& after.height == self.height
                &&& (code == Key::Enter && self.input.focused && stage@ is NotRunning
                    ==> stage_after@ == StageView::Queued(self.input.value@))
                &&& (!(code == Key::Enter && self.input.focused && stage@ is NotRunning)
                    ==> stage_after == stage)
            },
            _ => Screen::quits(event) || (after == self && stage_after == stage),
        }
    }

    /// Deals with an event at the time `now`. What the input region does
    /// with a key is said by its own `handle_event`.
    pub fn handle_event_at(
        &mut self,
        event: Event,
        lb: &mut Vec<Log>,
        query_stage: &mut TUIQueryStage,
        now: u128,
    )
        requires
            old(self).input.wf(),
        ensures
            final(self).input.wf(),
            final(lb)@ == old(lb)@,
            old(self).event_outcome(*old(query_stage), event, now, *final(self), *final(query_stage)),
    {
        match event {
            Event::Key { code, control } => {
                if control {
                    if let Key::Char(c) = code {
                        if c == 'c' {
                            self.run = false;
                            return ;
                        }
                    }
                }
                let action = self.input.handle_event(event, lb);
                self.table.handle_event(event);
                let _ = self.list.handle_event_at(event, now);
                if let Action::RunQuery(q) = action {
                    if let TUIQueryStage::NotRunning = query_stage {
                        *query_stage = TUIQueryStage::Queued(q);
                    }
                }
            },
            Event::Mouse { kind, column, row, control: _ } => {
                if let MouseKind::LeftDown = kind {
                    let on_input = self.input.bounds_loc(column, row);
                    self.input.set_focus(on_input);
                    let on_table = self.table.bounds_loc(column, row);
                    self.table.set_focus(on_table);
                    let on_list = self.list.bounds_loc(column, row);
                    self.list.set_focus(on_list);
                } else {
                    let _ = self.input.handle_event(event, lb);
                    self.table.handle_event(event);
                    let _ = self.list.handle_event_at(event, now);
                }
            },
            Event::Resize { columns, rows } => {
                self.height = rows;
                self.width = columns;
            },
            Event::Other => {},
        }
    }

    /// Deals with an event at the time that the clock gives.
    pub fn handle_event(&mut self, event: Event, lb: &mut Vec<Log>, query_stage: &mut TUIQueryStage)
        requires
            old(self).input.wf(),
        ensures
            final(self).input.wf(),
            final(lb)@ == old(lb)@,
            exists|now: u128| #[trigger]
                old(self).event_outcome(
                    *old(query_stage),
                    event,
                    now,
                    *final(self),
                    *final(query_stage),
                ),
    {
        let now = micro_secs_now();
        self.handle_event_at(event, lb, query_stage, now);
    }

    /// Sends lines to the log.
    pub fn log(&mut self, lines: Vec<Log>)
        ensures
            final(self).list.data@ == old(self).list.data@ + lines@,
            final(self).input == old(self).input,
            final(self).table == old(self).table,
            final(self).run == old(self).run,
            final(self).width == old(self).width,
            final(self).height == old(self).height,
    {
        self.list.send_data(crate::ui::regions::region::RegionData::List(lines));
    }

    /// Sends the lines of a table to the table region.
    pub fn send_table_data(&mut self, data: Vec<String>)
        ensures
            *final(self) == (Screen {
                table: TableRegion { formatted_table: data, ..old(self).table },
                ..*old(self)
            }),
    {
        self.table.send_data(crate::ui::regions::region::RegionData::Table(data));
    }
}

} // verus!
