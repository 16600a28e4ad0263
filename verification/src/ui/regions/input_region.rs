//! The region in which a query is typed.

use vstd::prelude::*;
use vstd::string::*;
use crate::text::{char_at, chars_of, pop_char, push_char, texts_of};
use crate::ui::event::{Action, Event, Key};
use crate::ui::framebuffer::{blank, blank_cells, Cell, FrameBuffer};
use crate::ui::regions::region::{
    build_border, check_room, draw_cells, drawn, fits_frame, has_room, inner_size, region_cells,
    RegionData, RegionType,
};
use crate::utils::utils::{bounds_loc, in_bounds};
use crate::ui::tui::{Colour, Log};

verus! {

/// A framed line of input with a history of the queries that were run.
#[derive(Debug, PartialEq)]
pub struct InputRegion {
    pub name: String,
    pub x: u16,
    pub y: u16,
    pub width: u16,
    pub height: u16,
    pub border_colour: Colour,
    pub focused_border_colour: Colour,
    /// The text that is being typed.
    pub value: String,
    /// The queries that were run, the latest first.
    pub value_stack: Vec<String>,
    /// Which query of the history is shown, counted from 1; 0 where none
    /// is.
    pub stack_pos: usize,
    pub focused: bool,
    /// What is shown while nothing has been typed.
    pub placeholder: String,
}

/// The cells of a line of text in the colour `colour`, followed by empty
/// cells, `size` cells in all.
pub open spec fn text_cells(size: int, text: Seq<char>, colour: Colour) -> Seq<Cell> {
    Seq::new(size as nat, |i: int| text_cell(i, text, colour))
}

/// The cell at position `i` of a line of text in the colour `colour`: a
/// character of the text, or an empty cell behind its end.
pub open spec fn text_cell(i: int, text: Seq<char>, colour: Colour) -> Cell {
    if 0 <= i < text.len() {
        Cell { char: text[i], colour: colour, bold: false }
    } else {
        blank()
    }
}

impl InputRegion {
    /// The position in the history is at most the length of the history.
    pub open spec fn wf(&self) -> bool {
        self.stack_pos <= self.value_stack@.len()
    }

    /// The text that the region shows: what has been typed, or the
    /// placeholder where nothing has.
    pub open spec fn shown_text(&self) -> Seq<char> {
        if self.value@.len() == 0 {
            self.placeholder@
        } else {
            self.value@
        }
    }

    /// The colour of the text that the region shows.
    pub open spec fn shown_colour(&self) -> Colour {
        if self.value@.len() == 0 {
            Colour::Grey
        } else {
            Colour::White
        }
    }

    /// Whether the region has room for the text that it shows.
    pub open spec fn drawable(&self) -> bool {
        has_room(self.width, self.height) && self.shown_text().len() <= (self.width - 2) * (
        self.height - 2)
    }

    /// Whether the position in the history is inside the history.
    pub fn is_wf(&self) -> (r: bool)
        ensures
            r == self.wf(),
    {
        self.stack_pos <= self.value_stack.len()
    }

    /// Whether the region has room for the text that it shows.
    pub fn is_drawable(&self) -> (r: bool)
        ensures
            r == self.drawable(),
    {
        if !check_room(self.width, self.height) {
            return false;
        }
        let shown = if self.value.as_str().is_empty() {
            chars_of(self.placeholder.as_str())
        } else {
            chars_of(self.value.as_str())
        };
        shown.len() <= inner_size(self.width, self.height)
    }

    /// The content of the region.
    pub open spec fn inner_spec(&self) -> Seq<Cell> {
        text_cells((self.width - 2) * (self.height - 2), self.shown_text(), self.shown_colour())
    }

    /// The colour of the border.
    pub open spec fn frame_colour(&self) -> Colour {
        if self.focused {
            self.focused_border_colour
        } else {
            self.border_colour
        }
    }

    /// The buffer of the region: its content inside its border.
    pub open spec fn region_spec(&self) -> Seq<Cell> {
        region_cells(
            self.width as int,
            self.height as int,
            self.name@,
            self.frame_colour(),
            self.focused,
            self.inner_spec(),
        )
    }

    /// The content of the region: the text from the first cell on.
    pub fn build_inner_buffer(&self) -> (r: Vec<Cell>)
        requires
            self.drawable(),
        ensures
            r@ == self.inner_spec(),
            r@.len() == (self.width - 2) * (self.height - 2),
    {
        let size = inner_size(self.width, self.height);
        let mut buffer = blank_cells(size);
        let (text, colour) = if self.value.as_str().is_empty() {
            (chars_of(self.placeholder.as_str()), Colour::Grey)
        } else {
            (chars_of(self.value.as_str()), Colour::White)
        };
        let mut index: usize = 0;
        while index < text.len()
            invariant
                index <= text@.len() <= size,
                buffer@.len() == size,
                size == (self.width - 2) * (self.height - 2),
                text@ == self.shown_text(),
                colour == self.shown_colour(),
                forall|i: int|
                    0 <= i < size ==> #[trigger] buffer@[i] == (if i < index {
                        Cell { char: text@[i], colour: colour, bold: false }
                    } else {
                        blank()
                    }),
            decreases text.len() - index,
        {
            buffer.set(index, Cell { char: char_at(text.as_slice(), index), colour, bold: false });
            index += 1;
        }
        assert(buffer@ =~= self.inner_spec());
        buffer
    }

    /// The buffer of the region: its content inside its border.
    pub fn build_region_buffer(&self) -> (r: Vec<Cell>)
        requires
            self.drawable(),
        ensures
            r@ == self.region_spec(),
    {
        let inner = self.build_inner_buffer();
        let name = chars_of(self.name.as_str());
        let colour = if self.focused {
            self.focused_border_colour
        } else {
            self.border_colour
        };
        build_border(self.width, self.height, name.as_slice(), colour, self.focused, &inner)
    }

    /// Draws the region into the frame buffer.
    pub fn draw(&self, fb: &mut FrameBuffer)
        requires
            self.drawable(),
            fits_frame(self.x, self.y, self.width, self.height, old(fb)),
        ensures
            final(fb).width == old(fb).width,
            final(fb).height == old(fb).height,
            final(fb).cells@ == drawn(
                old(fb).cells@,
                self.width as int,
                self.y as int,
                self.region_spec(),
            ),
    {
        let content = self.build_region_buffer();
        draw_cells(self.x, self.y, self.width, self.height, &content, fb);
    }

    /// Deals with an event. A region without the focus does nothing. A
    /// character is appended to the text and the backspace key takes the
    /// last one off. The enter key puts the text at the front of the
    /// history, clears it and asks for the query to be run. The up and down
    /// keys walk through the history; below its first entry the text is
    /// empty.
    pub fn handle_event(&mut self, event: Event, lb: &mut Vec<Log>) -> (r: Action)
        requires
            old(self).wf(),
        ensures
            final(self).wf(),
            final(lb)@ == old(lb)@,
            final(self).name == old(self).name,
            final(self).x == old(self).x,
            final(self).y == old(self).y,
            final(self).width == old(self).width,
            final(self).height == old(self).height,
            final(self).border_colour == old(self).border_colour,
            final(self).focused_border_colour == old(self).focused_border_colour,
            final(self).focused == old(self).focused,
            final(self).placeholder == old(self).placeholder,
            match event {
                Event::Key { code: Key::Enter, .. } if old(self).focused => {
                    &&& r matches Action::RunQuery(q) && q@ == old(self).value@
                    &&& final(self).value@ == Seq::<char>::empty()
                    &&& final(self).stack_pos == 0
                    &&& texts_of(final(self).value_stack@) == seq![old(self).value@] + texts_of(
                        old(self).value_stack@,
                    )
                },
                _ => r == Action::Internal && texts_of(final(self).value_stack@) == texts_of(
                    old(self).value_stack@,
                ),
            },
            match event {
                Event::Key { code: Key::Char(c), .. } if old(self).focused => {
                    final(self).value@ == old(self).value@.push(c) && final(self).stack_pos == old(
                        self,
                    ).stack_pos
                },
                Event::Key { code: Key::Backspace, .. } if old(self).focused => {
                    final(self).value@ == (if old(self).value@.len() > 0 {
                        old(self).value@.drop_last()
                    } else {
                        old(self).value@
                    }) && final(self).stack_pos == old(self).stack_pos
                },
                Event::Key { code: Key::Enter, .. } if old(self).focused => true,
                Event::Key { code: Key::Down, .. } if old(self).focused && old(self).stack_pos
                    > 0 => {
                    final(self).stack_pos == old(self).stack_pos - 1 && final(self).value@ == (
                    if old(self).stack_pos == 1 {
                        Seq::<char>::empty()
                    } else {
                        old(self).value_stack@[old(self).stack_pos - 2]@
                    })
                },
                Event::Key { code: Key::Up, .. } if old(self).focused && old(self).stack_pos < old(
                    self,
                ).value_stack@.len() => {
                    final(self).stack_pos == old(self).stack_pos + 1 && final(self).value@ == old(
                        self,
                    ).value_stack@[old(self).stack_pos as int]@
                },
                _ => final(self).value@ == old(self).value@ && final(self).stack_pos == old(
                    self,
                ).stack_pos,
            },
    {
        if !self.focused {
            return Action::Internal;
        }
        match event {
            Event::Key { code, control: _ } => match code {
                Key::Char(c) => {
                    push_char(&mut self.value, c);
                    Action::Internal
                },
                Key::Backspace => {
                    let _ = pop_char(&mut self.value);
                    Action::Internal
                },
                Key::Enter => {
                    let q = self.value.clone();
                    let ghost before = texts_of(self.value_stack@);
                    self.value_stack.insert(0, self.value.clone());
                    self.stack_pos = 0;
                    self.value = String::new();
                    proof {
                        assert(texts_of(self.value_stack@) =~= seq![q@] + before);
                    }
                    Action::RunQuery(q)
                },
                Key::Down => {
                    if self.stack_pos > 0 {
                        self.stack_pos -= 1;
                        if self.stack_pos == 0 {
                            self.value = String::new();
                        } else {
                            self.value = self.value_stack[self.stack_pos - 1].clone();
                        }
                    }
                    Action::Internal
                },
                Key::Up => {
                    if self.stack_pos < self.value_stack.len() {
                        self.stack_pos += 1;
                        self.value = self.value_stack[self.stack_pos - 1].clone();
                    }
                    Action::Internal
                },
                Key::Other => Action::Internal,
            },
            _ => Action::Internal,
        }
    }

    /// Whether the place in column `x` of row `y` lies in the region.
    pub fn bounds_loc(&self, x: u16, y: u16) -> (r: bool)
        ensures
            r == in_bounds(self.x, self.y, self.width, self.height, x, y),
    {
        bounds_loc(self.x, self.y, self.width, self.height, x, y)
    }

    pub fn set_focus(&mut self, focus: bool)
        ensures
            *final(self) == (InputRegion { focused: focus, ..*old(self) }),
    {
        self.focused = focus;
    }

    pub fn _type(&self) -> (r: RegionType)
        ensures
            r == RegionType::Input,
    {
        RegionType::Input
    }

    /// An input region takes no data.
    pub fn send_data(&mut self, data: RegionData)
        ensures
            *final(self) == *old(self),
    {
    }
}

} // verus!
