use spotifyql::query::run::TUIQueryStage;
use spotifyql::ui::event::{Action, Event, Key, MouseKind};
use spotifyql::ui::framebuffer::{blank_cells, Cell, FrameBuffer};
use spotifyql::ui::regions::input_region::InputRegion;
use spotifyql::ui::regions::list_region::{ListRegion, SCROLL_DEBOUNCE_MICRO};
use spotifyql::ui::regions::region::{
    build_border, check_fits_frame, check_room, draw_cells, inner_size, RegionData, RegionType,
};
use spotifyql::ui::regions::table_region::TableRegion;
use spotifyql::ui::screen::{check_comparable, flush_diff, Screen};
use spotifyql::ui::tui::{Colour, Log, Severity};
use spotifyql::utils::utils::bounds_loc;

fn text(cells: &[Cell], width: usize) -> Vec<String> {
    cells.chunks(width).map(|row| row.iter().map(|c| c.char).collect()).collect()
}

fn blank() -> Cell {
    Cell { char: ' ', colour: Colour::White, bold: false }
}

fn input(value: &str) -> InputRegion {
    InputRegion {
        name: "Query".to_string(),
        x: 0,
        y: 0,
        width: 12,
        height: 3,
        border_colour: Colour::Cyan,
        focused_border_colour: Colour::Green,
        value: value.to_string(),
        value_stack: vec![],
        stack_pos: 0,
        focused: true,
        placeholder: "type here".to_string(),
    }
}

fn list(lines: &[&str]) -> ListRegion {
    ListRegion {
        name: "Log".to_string(),
        x: 0,
        y: 6,
        width: 8,
        height: 4,
        border_colour: Colour::Purple,
        focused_border_colour: Colour::BrightPurple,
        data: lines
            .iter()
            .map(|l| Log { severity: Severity::Success, content: l.to_string() })
            .collect(),
        longest_log: lines.iter().map(|l| l.len()).max().unwrap_or(0),
        focused: false,
        vertical_scroll: (0, 0),
        horizontal_scroll: (0, 0),
    }
}

fn table(lines: &[&str]) -> TableRegion {
    TableRegion {
        x: 0,
        y: 3,
        width: 7,
        height: 4,
        border_colour: Colour::Blue,
        focused_border_colour: Colour::BrightBlue,
        formatted_table: lines.iter().map(|l| l.to_string()).collect(),
        focused: false,
    }
}

fn key(code: Key) -> Event {
    Event::Key { code, control: false }
}

#[test]
fn colours() {
    let all = [
        (Colour::Green, "32m"),
        (Colour::Blue, "34m"),
        (Colour::Purple, "35m"),
        (Colour::Red, "31m"),
        (Colour::Cyan, "36m"),
        (Colour::White, "37m"),
        (Colour::Grey, "90m"),
        (Colour::BrightGreen, "92m"),
        (Colour::BrightBlue, "94m"),
        (Colour::BrightPurple, "95m"),
    ];
    for (colour, code) in all {
        assert_eq!(colour.code(), code);
        assert_eq!(colour.escape(), format!("\x1b[{}", code));
    }
    assert_eq!(Severity::Error.colour(), Colour::Red);
    assert_eq!(Severity::Log.colour(), Colour::Blue);
    assert_eq!(Severity::Success.colour(), Colour::Green);
}

#[test]
fn frame_buffer() {
    let mut fb = FrameBuffer::new(4, 3);
    assert_eq!(fb.width, 4);
    assert_eq!(fb.height, 3);
    assert_eq!(fb.cells, vec![blank(); 12]);
    let cell = Cell { char: 'x', colour: Colour::Red, bold: true };
    fb.put(1, 2, cell);
    assert_eq!(fb.get(1, 2), cell);
    assert_eq!(fb.cells[9], cell);
    assert_eq!(fb.cells.iter().filter(|c| **c == cell).count(), 1);
    assert_eq!(fb.get(0, 0), blank());
    assert_eq!(FrameBuffer::new(0, 7).cells.len(), 0);
    assert_eq!(blank_cells(3), vec![blank(); 3]);
}

#[test]
fn places_in_a_rectangle() {
    assert!(bounds_loc(2, 3, 4, 5, 2, 3));
    assert!(bounds_loc(2, 3, 4, 5, 5, 7));
    assert!(!bounds_loc(2, 3, 4, 5, 6, 7));
    assert!(!bounds_loc(2, 3, 4, 5, 5, 8));
    assert!(!bounds_loc(2, 3, 4, 5, 1, 3));
    assert!(!bounds_loc(2, 3, 0, 5, 2, 3));
    assert!(bounds_loc(65535, 65535, 65535, 65535, 65535, 65535));
}

#[test]
fn borders() {
    let inner = blank_cells(inner_size(8, 3));
    let name: Vec<char> = "Log".chars().collect();
    let cells = build_border(8, 3, &name, Colour::Red, true, &inner);
    assert_eq!(text(&cells, 8), vec!["╭─Log──╮", "│      │", "╰──────╯"]);
    assert!(cells[0].bold);
    assert_eq!(cells[0].colour, Colour::Red);
    assert_eq!(cells[9], blank());
    // a name that is too long is cut at the corner
    let name: Vec<char> = "A long name".chars().collect();
    let cells = build_border(6, 2, &name, Colour::Red, false, &vec![]);
    assert_eq!(text(&cells, 6), vec!["╭─A l╮", "╰────╯"]);
    let cells = build_border(2, 2, &[], Colour::Red, false, &vec![]);
    assert_eq!(text(&cells, 2), vec!["╭╮", "╰╯"]);
}

#[test]
fn input_region_shows_its_text() {
    let region = input("");
    assert_eq!(
        text(&region.build_region_buffer(), 12),
        vec!["╭─Query────╮", "│type here │", "╰──────────╯"]
    );
    let inner = region.build_inner_buffer();
    assert_eq!(inner.len(), 10);
    assert_eq!(inner[0], Cell { char: 't', colour: Colour::Grey, bold: false });
    assert_eq!(inner[9], blank());
    let region = input("SELECT");
    let cells = region.build_region_buffer();
    assert_eq!(text(&cells, 12), vec!["╭─Query────╮", "│SELECT    │", "╰──────────╯"]);
    assert_eq!(cells[13], Cell { char: 'S', colour: Colour::White, bold: false });
    assert_eq!(cells[0], Cell { char: '╭', colour: Colour::Green, bold: true });
    let mut unfocused = input("x");
    unfocused.set_focus(false);
    assert_eq!(unfocused.build_region_buffer()[0], Cell { char: '╭', colour: Colour::Cyan, bold: false });
    assert_eq!(unfocused._type(), RegionType::Input);
}

#[test]
fn input_region_takes_keys() {
    let mut region = input("");
    let mut lb = vec![];
    assert_eq!(region.handle_event(key(Key::Char('a')), &mut lb), Action::Internal);
    assert_eq!(region.handle_event(key(Key::Char('é')), &mut lb), Action::Internal);
    assert_eq!(region.value, "aé");
    region.handle_event(key(Key::Backspace), &mut lb);
    assert_eq!(region.value, "a");
    region.handle_event(key(Key::Backspace), &mut lb);
    region.handle_event(key(Key::Backspace), &mut lb);
    assert_eq!(region.value, "");
    region.value = "first".to_string();
    assert_eq!(region.handle_event(key(Key::Enter), &mut lb), Action::RunQuery("first".to_string()));
    assert_eq!(region.value, "");
    region.value = "second".to_string();
    assert_eq!(region.handle_event(key(Key::Enter), &mut lb), Action::RunQuery("second".to_string()));
    assert_eq!(region.value_stack, vec!["second", "first"]);
    assert_eq!(region.stack_pos, 0);
    region.handle_event(key(Key::Down), &mut lb);
    assert_eq!((region.stack_pos, region.value.as_str()), (0, ""));
    region.handle_event(key(Key::Up), &mut lb);
    assert_eq!((region.stack_pos, region.value.as_str()), (1, "second"));
    region.handle_event(key(Key::Up), &mut lb);
    assert_eq!((region.stack_pos, region.value.as_str()), (2, "first"));
    region.handle_event(key(Key::Up), &mut lb);
    assert_eq!((region.stack_pos, region.value.as_str()), (2, "first"));
    region.handle_event(key(Key::Down), &mut lb);
    assert_eq!((region.stack_pos, region.value.as_str()), (1, "second"));
    region.handle_event(key(Key::Down), &mut lb);
    assert_eq!((region.stack_pos, region.value.as_str()), (0, ""));
    region.handle_event(key(Key::Other), &mut lb);
    region.handle_event(Event::Other, &mut lb);
    region.handle_event(Event::Resize { columns: 1, rows: 1 }, &mut lb);
    assert_eq!((region.stack_pos, region.value.as_str()), (0, ""));
    region.send_data(RegionData::Table(vec!["x".to_string()]));
    assert_eq!(region.value_stack.len(), 2);
    assert!(lb.is_empty());
    // without the focus nothing is taken
    region.set_focus(false);
    assert_eq!(region.handle_event(key(Key::Char('a')), &mut lb), Action::Internal);
    assert_eq!(region.handle_event(key(Key::Enter), &mut lb), Action::Internal);
    assert_eq!(region.value, "");
    assert_eq!(region.value_stack.len(), 2);
    assert!(region.bounds_loc(11, 2));
    assert!(!region.bounds_loc(12, 2));
}

#[test]
fn list_region_shows_a_window() {
    let mut region = list(&["alpha", "beta", "gamma delta", "x"]);
    assert_eq!(text(&region.build_inner_buffer(), 6), vec!["alpha ", "beta  "]);
    assert_eq!(
        text(&region.build_region_buffer(), 8),
        vec!["╭─Log──╮", "│alpha │", "│beta  │", "╰──────╯"]
    );
    assert_eq!(
        region.build_inner_buffer()[0],
        Cell { char: 'a', colour: Colour::Green, bold: false }
    );
    region.vertical_scroll = (0, 2);
    region.horizontal_scroll = (0, 4);
    assert_eq!(text(&region.build_inner_buffer(), 6), vec!["a delt", "      "]);
    region.vertical_scroll = (0, 3);
    region.horizontal_scroll = (0, 0);
    assert_eq!(text(&region.build_inner_buffer(), 6), vec!["x     ", "      "]);
    region.vertical_scroll = (0, usize::MAX);
    region.horizontal_scroll = (0, usize::MAX);
    assert_eq!(text(&region.build_inner_buffer(), 6), vec!["      ", "      "]);
    assert_eq!(region._type(), RegionType::List);
}

#[test]
fn list_region_scrolls() {
    let mut region = list(&["1", "2", "3", "4", "5", "6"]);
    // six lines in a region of height four: the first line goes up to 6 - 4 + 2
    region.scroll_vertical_at(1, false, 100_000);
    assert_eq!(region.vertical_scroll, (100_000, 1));
    // a step within the debounce is dropped
    region.scroll_vertical_at(1, false, 100_000 + SCROLL_DEBOUNCE_MICRO - 1);
    assert_eq!(region.vertical_scroll, (100_000, 1));
    region.scroll_vertical_at(1, true, 100_001);
    assert_eq!(region.vertical_scroll, (100_001, 2));
    region.scroll_vertical_at(1, false, 100_001 + SCROLL_DEBOUNCE_MICRO);
    assert_eq!(region.vertical_scroll.1, 3);
    region.scroll_vertical_at(1, true, 0);
    assert_eq!(region.vertical_scroll, (0, 4));
    region.scroll_vertical_at(1, true, 7);
    assert_eq!(region.vertical_scroll, (0, 4));
    region.scroll_vertical_at(-5, true, 7);
    assert_eq!(region.vertical_scroll, (0, 4));
    region.scroll_vertical_at(-4, true, 7);
    assert_eq!(region.vertical_scroll, (7, 0));
    // three lines fit in the region
    let mut short = list(&["1", "2", "3"]);
    short.scroll_vertical_at(1, true, 7);
    assert_eq!(short.vertical_scroll, (0, 0));
    let mut empty = list(&[]);
    empty.scroll_vertical_at(1, true, 7);
    empty.scroll_horizontal_at(1, true, 7);
    assert_eq!((empty.vertical_scroll, empty.horizontal_scroll), ((0, 0), (0, 0)));
    let mut wide = list(&["0123456789"]);
    wide.scroll_horizontal_at(4, true, 9);
    assert_eq!(wide.horizontal_scroll, (9, 4));
    wide.scroll_horizontal_at(1, true, 10);
    assert_eq!(wide.horizontal_scroll, (9, 4));
    wide.change_horizontal_scroll(-1, true);
    assert_eq!(wide.horizontal_scroll.1, 3);
    wide.change_vertical_scroll(1, true);
    assert_eq!(wide.vertical_scroll.1, 0);
}

#[test]
fn list_region_takes_the_wheel_and_lines() {
    let mut region = list(&["0123456789", "2", "3", "4", "5", "6"]);
    let wheel = |kind, column, row| Event::Mouse { kind, column, row, control: true };
    assert_eq!(region.handle_event_at(wheel(MouseKind::ScrollDown, 1, 7), 5), Action::Internal);
    assert_eq!(region.vertical_scroll, (5, 1));
    region.handle_event_at(wheel(MouseKind::ScrollUp, 1, 7), 6);
    assert_eq!(region.vertical_scroll, (6, 0));
    region.handle_event_at(wheel(MouseKind::ScrollLeft, 1, 7), 7);
    assert_eq!(region.horizontal_scroll, (7, 1));
    region.handle_event_at(wheel(MouseKind::ScrollRight, 1, 7), 8);
    assert_eq!(region.horizontal_scroll, (8, 0));
    // outside of the region the wheel does nothing
    region.handle_event_at(wheel(MouseKind::ScrollDown, 1, 5), 9);
    region.handle_event_at(wheel(MouseKind::ScrollDown, 8, 7), 9);
    region.handle_event_at(wheel(MouseKind::Other, 1, 7), 9);
    region.handle_event_at(key(Key::Down), 9);
    assert_eq!((region.vertical_scroll, region.horizontal_scroll), ((6, 0), (8, 0)));
    let mut lb = vec![];
    assert_eq!(region.handle_event(wheel(MouseKind::ScrollDown, 1, 7), &mut lb), Action::Internal);
    assert_eq!(region.vertical_scroll.1, 1);
    region.send_data(RegionData::List(vec![
        Log { severity: Severity::Error, content: "a line of é".to_string() },
        Log { severity: Severity::Log, content: "b".to_string() },
    ]));
    assert_eq!(region.data.len(), 8);
    assert_eq!(region.data[6].content, "a line of é");
    assert_eq!(region.longest_log, 12);
    // eight lines in a region of height four: the log is shown from line 6 on
    assert_eq!(region.vertical_scroll.1, 6);
    region.send_data(RegionData::Table(vec!["x".to_string()]));
    assert_eq!(region.data.len(), 8);
    let mut short = list(&[]);
    short.send_data(RegionData::List(vec![Log { severity: Severity::Log, content: "b".to_string() }]));
    assert_eq!((short.longest_log, short.vertical_scroll.1), (1, 0));
    region.set_geometry(1, 2, 3, 4);
    assert_eq!((region.x, region.y, region.width, region.height), (1, 2, 3, 4));
    region.set_focus(true);
    assert!(region.focused);
    assert!(region.bounds_loc(3, 5));
    assert!(!region.bounds_loc(4, 5));
}

#[test]
fn table_region() {
    let mut region = table(&["|a|b|", "|-|-|"]);
    assert_eq!(text(&region.build_inner_buffer(), 5), vec!["|a|b|", "|-|-|"]);
    assert_eq!(
        text(&region.build_region_buffer(), 7),
        vec!["╭─────╮", "│|a|b|│", "│|-|-|│", "╰─────╯"]
    );
    region.send_data(RegionData::Table(vec!["xy".to_string()]));
    assert_eq!(text(&region.build_inner_buffer(), 5), vec!["xy   ", "     "]);
    region.send_data(RegionData::List(vec![]));
    assert_eq!(region.formatted_table, vec!["xy"]);
    region.handle_event(key(Key::Enter));
    region.set_focus(true);
    assert_eq!(region.build_region_buffer()[0], Cell { char: '╭', colour: Colour::BrightBlue, bold: true });
    assert_eq!(region._type(), RegionType::Table);
    assert!(region.bounds_loc(6, 6));
    assert!(!region.bounds_loc(6, 7));
}

#[test]
fn table_region_takes_records() {
    let rows = vec![spotifyql::query::data::AlbumData {
        id: "1".to_string(),
        name: "n".to_string(),
        tracks: vec![],
        track_count: 0,
    }];
    let mut region = table(&[]);
    region.width = 9;
    region.height = 5;
    assert_eq!(region.data(rows.clone(), vec!["id".to_string(), "name".to_string()]), Ok(()));
    assert_eq!(region.formatted_table, vec!["|id|name|", "|--|----|", "|1 | n  |"]);
    assert!(region.data(rows, vec!["zz".to_string()]).is_err());
    assert_eq!(region.formatted_table.len(), 3);
}

#[test]
fn regions_are_drawn_into_the_frame() {
    let mut fb = FrameBuffer::new(7, 8);
    let region = table(&["ab"]);
    region.draw(&mut fb);
    assert_eq!(
        text(&fb.cells, 7),
        vec![
            "       ", "       ", "       ", "╭─────╮", "│ab   │", "│     │", "╰─────╯", "       "
        ]
    );
    let mut fb = FrameBuffer::new(12, 3);
    input("q").draw(&mut fb);
    assert_eq!(text(&fb.cells, 12), vec!["╭─Query────╮", "│q         │", "╰──────────╯"]);
    let mut fb = FrameBuffer::new(8, 10);
    list(&["l"]).draw(&mut fb);
    assert_eq!(text(&fb.cells, 8)[7], "│l     │");
    let mut fb = FrameBuffer::new(2, 3);
    let cell = Cell { char: 'z', colour: Colour::Red, bold: false };
    draw_cells(0, 1, 2, 1, &vec![cell, cell], &mut fb);
    assert_eq!(text(&fb.cells, 2), vec!["  ", "zz", "  "]);
}

#[test]
fn only_what_changed_is_written() {
    let previous = FrameBuffer::new(3, 2);
    let mut current = FrameBuffer::new(3, 2);
    assert_eq!(flush_diff(&current, &previous), "");
    current.put(2, 0, Cell { char: 'a', colour: Colour::White, bold: true });
    current.put(0, 1, Cell { char: ' ', colour: Colour::Red, bold: false });
    // a cell of another weight alone is not written again
    current.put(1, 1, Cell { char: ' ', colour: Colour::White, bold: true });
    assert_eq!(flush_diff(&current, &previous), "\x1b[1;3H\x1b[1;37ma\x1b[2;1H\x1b[22;31m ");
    assert_eq!(flush_diff(&previous, &current), "\x1b[1;3H\x1b[22;37m \x1b[2;1H\x1b[22;37m ");
}

fn screen() -> Screen {
    Screen {
        width: 12,
        height: 10,
        input: input(""),
        table: table(&[]),
        list: list(&["1", "2", "3", "4", "5", "6"]),
        run: true,
    }
}

#[test]
fn the_screen_hands_events_on() {
    let mut s = screen();
    let mut lb = vec![];
    let mut stage = TUIQueryStage::NotRunning;
    s.handle_event_at(key(Key::Char('q')), &mut lb, &mut stage, 0);
    s.handle_event_at(Event::Key { code: Key::Char('c'), control: false }, &mut lb, &mut stage, 0);
    assert_eq!(s.input.value, "qc");
    assert!(s.run);
    s.handle_event_at(key(Key::Enter), &mut lb, &mut stage, 0);
    assert_eq!(stage, TUIQueryStage::Queued("qc".to_string()));
    // while a query is under way another one is not queued
    s.handle_event_at(key(Key::Char('r')), &mut lb, &mut stage, 0);
    s.handle_event_at(key(Key::Enter), &mut lb, &mut stage, 0);
    assert_eq!(stage, TUIQueryStage::Queued("qc".to_string()));
    assert_eq!(s.input.value_stack, vec!["r", "qc"]);
    s.handle_event_at(
        Event::Mouse { kind: MouseKind::ScrollDown, column: 1, row: 7, control: true },
        &mut lb,
        &mut stage,
        9,
    );
    assert_eq!(s.list.vertical_scroll, (9, 1));
    s.handle_event_at(
        Event::Mouse { kind: MouseKind::LeftDown, column: 1, row: 7, control: false },
        &mut lb,
        &mut stage,
        9,
    );
    assert_eq!((s.input.focused, s.table.focused, s.list.focused), (false, false, true));
    s.handle_event_at(
        Event::Mouse { kind: MouseKind::LeftDown, column: 3, row: 6, control: false },
        &mut lb,
        &mut stage,
        9,
    );
    // the table and the list lie over each other in row 6
    assert_eq!((s.input.focused, s.table.focused, s.list.focused), (false, true, true));
    s.handle_event_at(Event::Resize { columns: 80, rows: 24 }, &mut lb, &mut stage, 9);
    assert_eq!((s.width, s.height), (80, 24));
    s.handle_event_at(Event::Other, &mut lb, &mut stage, 9);
    s.handle_event(Event::Key { code: Key::Char('c'), control: true }, &mut lb, &mut stage);
    assert!(!s.run);
    assert!(lb.is_empty());
    s.log(vec![Log { severity: Severity::Log, content: "hello".to_string() }]);
    assert_eq!(s.list.data.len(), 7);
    s.send_table_data(vec!["t".to_string()]);
    assert_eq!(s.table.formatted_table, vec!["t"]);
}

#[test]
fn what_can_be_drawn() {
    assert!(check_room(2, 2));
    assert!(check_room(257, 257));
    assert!(!check_room(1, 5));
    assert!(!check_room(5, 1));
    assert!(!check_room(300, 300));
    let fb = FrameBuffer::new(12, 10);
    assert!(check_fits_frame(0, 0, 12, 10, &fb));
    assert!(check_fits_frame(0, 7, 12, 3, &fb));
    assert!(!check_fits_frame(0, 8, 12, 3, &fb));
    assert!(!check_fits_frame(1, 0, 12, 3, &fb));
    assert!(!check_fits_frame(0, 0, 11, 3, &fb));
    assert!(!check_fits_frame(0, 0, 300, 300, &FrameBuffer::new(300, 300)));
    let broken = FrameBuffer { width: 12, height: 10, cells: vec![] };
    assert!(!broken.is_wf());
    assert!(fb.is_wf());
    assert!(!check_fits_frame(0, 0, 12, 10, &broken));
    assert!(check_comparable(&fb, &FrameBuffer::new(12, 10)));
    assert!(!check_comparable(&fb, &FrameBuffer::new(10, 12)));
    assert!(!check_comparable(&fb, &broken));
    assert!(!check_comparable(&FrameBuffer::new(300, 300), &FrameBuffer::new(300, 300)));
    assert!(input("0123456789").is_drawable());
    assert!(!input("0123456789a").is_drawable());
    assert!(input("").is_drawable());
    let mut long = input("");
    long.placeholder = "a placeholder".to_string();
    assert!(!long.is_drawable());
    assert!(input("").is_wf());
    let mut lost = input("");
    lost.stack_pos = 1;
    assert!(!lost.is_wf());
    assert!(table(&["12345", "1"]).is_drawable());
    assert!(!table(&["123456"]).is_drawable());
    assert!(!table(&["1", "2", "3"]).is_drawable());
    let mut flat = table(&[]);
    flat.height = 1;
    assert!(!flat.is_drawable());
}
