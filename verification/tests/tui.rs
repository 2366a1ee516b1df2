use not_vim::config::WrapMode;
use not_vim::editor::buffer::{Buffer as TextBuffer, ReadOutcome};
use not_vim::tui::buffer::{enumerate_2d, Buffer, Cell};
use not_vim::tui::command::{Attribute, Command};
use not_vim::tui::frame::Frame;
use not_vim::tui::rect::Rect;
use not_vim::tui::style::{Color, Modifier, Style, StyleChange};
use not_vim::tui::terminal::{commands_for, Terminal};
use not_vim::tui::text::{Render, SingleText, Text};

fn area(width: u16, height: u16) -> Rect {
    Rect { top: 0, left: 0, height, width }
}

fn text_buffer(text: &str) -> TextBuffer {
    TextBuffer::open("f", ReadOutcome::Contents(text.to_string())).unwrap()
}

fn rows(buffer: &Buffer) -> Vec<String> {
    let area = buffer.area();
    (0..area.height)
        .map(|y| (0..area.width).map(|x| buffer.get(x, y).unwrap().symbol).collect())
        .collect()
}

fn prints(commands: &[Command]) -> String {
    commands
        .iter()
        .filter_map(|c| match c {
            Command::Print(c) => Some(*c),
            _ => None,
        })
        .collect()
}

#[test]
fn style_diff_with_itself_is_nothing() {
    let styles = [
        Style::default(),
        Style::default().fg(Color::Red),
        Style::default().bg(Color::Rgb { r: 1, g: 2, b: 3 }).add_modifier(Modifier::bold()),
        Style::default().add_modifier(Modifier::all()),
    ];
    for style in styles {
        let change = style.diff(style);
        assert_eq!(change.fg, None);
        assert_eq!(change.bg, None);
        assert!(change.add_modifier.is_empty());
        assert!(change.sub_modifier.is_empty());
        assert_eq!(change.commands(), vec![]);
    }
}

#[test]
fn style_diff_holds_only_what_changed() {
    let old = Style::default()
        .fg(Color::Red)
        .add_modifier(Modifier::bold().union(Modifier::italic()));
    let new = Style::default()
        .fg(Color::Red)
        .bg(Color::Blue)
        .add_modifier(Modifier::italic().union(Modifier::underlined()));
    let change = new.diff(old);
    assert_eq!(change.fg, None);
    assert_eq!(change.bg, Some(Color::Blue));
    assert_eq!(change.add_modifier, Modifier::underlined());
    assert_eq!(change.sub_modifier, Modifier::bold());
    assert_eq!(
        change.commands(),
        vec![
            Command::SetBackgroundColor(Color::Blue),
            Command::SetAttribute(Attribute::NormalIntensity),
            Command::SetAttribute(Attribute::Underlined),
        ]
    );
}

#[test]
fn style_builders_change_one_part() {
    let style = Style::default();
    assert_eq!(style.fg, Color::Reset);
    assert_eq!(style.bg, Color::Reset);
    assert!(style.modifiers.is_empty());
    let style = style.fg(Color::Green);
    assert_eq!((style.fg, style.bg), (Color::Green, Color::Reset));
    let style = style.bg(Color::AnsiValue(7));
    assert_eq!((style.fg, style.bg), (Color::Green, Color::AnsiValue(7)));
    let style = style.add_modifier(Modifier::dim()).add_modifier(Modifier::hidden());
    assert_eq!(style.modifiers.bits(), 0x002 | 0x080);
    assert!(style.modifiers.contains(Modifier::dim()));
    assert!(!style.modifiers.contains(Modifier::bold()));
}

#[test]
fn modifiers_are_sets_of_bits() {
    assert_eq!(Modifier::empty().bits(), 0);
    assert_eq!(Modifier::all().bits(), 0x1ff);
    assert_eq!(Modifier::from_bits_truncate(0xffff).bits(), 0x1ff);
    assert_eq!(Modifier::bold().bits(), 0x001);
    assert_eq!(Modifier::dim().bits(), 0x002);
    assert_eq!(Modifier::italic().bits(), 0x004);
    assert_eq!(Modifier::underlined().bits(), 0x008);
    assert_eq!(Modifier::slow_blink().bits(), 0x010);
    assert_eq!(Modifier::rapid_blink().bits(), 0x020);
    assert_eq!(Modifier::reversed().bits(), 0x040);
    assert_eq!(Modifier::hidden().bits(), 0x080);
    assert_eq!(Modifier::crossed_out().bits(), 0x100);
    let both = Modifier::bold().union(Modifier::reversed());
    assert_eq!(both.difference(Modifier::bold()), Modifier::reversed());
    assert!(both.contains(Modifier::reversed()));
    assert!(!Modifier::bold().contains(both));
}

#[test]
fn removals_come_before_additions() {
    let change = StyleChange {
        fg: Some(Color::Black),
        bg: Some(Color::White),
        add_modifier: Modifier::all(),
        sub_modifier: Modifier::all(),
    };
    let attributes = [
        Attribute::NoReverse,
        Attribute::NormalIntensity,
        Attribute::NoItalic,
        Attribute::NoUnderline,
        Attribute::NormalIntensity,
        Attribute::NotCrossedOut,
        Attribute::NoBlink,
        Attribute::NoHidden,
        Attribute::Reverse,
        Attribute::Bold,
        Attribute::Italic,
        Attribute::Underlined,
        Attribute::Dim,
        Attribute::CrossedOut,
        Attribute::SlowBlink,
        Attribute::RapidBlink,
        Attribute::Hidden,
    ];
    let mut expected = vec![
        Command::SetForegroundColor(Color::Black),
        Command::SetBackgroundColor(Color::White),
    ];
    expected.extend(attributes.iter().map(|a| Command::SetAttribute(*a)));
    assert_eq!(change.commands(), expected);

    let blink = StyleChange {
        fg: None,
        bg: None,
        add_modifier: Modifier::empty(),
        sub_modifier: Modifier::rapid_blink(),
    };
    assert_eq!(blink.commands(), vec![Command::SetAttribute(Attribute::NoBlink)]);
    let mut out = vec![Command::Print('x')];
    blink.write_commands(&mut out);
    assert_eq!(out, vec![Command::Print('x'), Command::SetAttribute(Attribute::NoBlink)]);
}

#[test]
fn a_new_buffer_is_blank() {
    let buffer = Buffer::new(Rect { top: 3, left: 4, height: 2, width: 3 });
    assert_eq!(buffer.len(), 6);
    assert_eq!(buffer.area(), Rect { top: 3, left: 4, height: 2, width: 3 });
    assert_eq!(buffer.get(2, 1), Some(Cell::default()));
    assert_eq!(Cell::default(), Cell { symbol: ' ', style: Style::default() });
    assert_eq!(buffer.get(3, 0), None);
    assert_eq!(buffer.get(0, 2), None);
    assert_eq!(Buffer::new(area(0, 5)).len(), 0);
}

#[test]
fn diff_of_a_buffer_with_itself_is_empty() {
    let mut buffer = Buffer::new(area(4, 3));
    buffer.set_symbol('a', 1, 1);
    buffer.set_style(Style::default().fg(Color::Red), 2, 2);
    assert_eq!(buffer.diff(&buffer), vec![]);
    assert_eq!(buffer.diff(&buffer.clone()), vec![]);
}

#[test]
fn diff_holds_the_cells_that_differ() {
    let mut a = Buffer::new(area(3, 2));
    let mut b = Buffer::new(area(3, 2));
    a.set_symbol('x', 2, 0);
    a.set_symbol('y', 0, 1);
    b.set_symbol('y', 0, 1);
    b.set_symbol('z', 1, 1);
    a.set_style(Style::default().bg(Color::Cyan), 2, 1);
    let red = Style::default().bg(Color::Cyan);
    assert_eq!(
        a.diff(&b),
        vec![
            (Cell { symbol: 'x', style: Style::default() }, 2, 0),
            (Cell { symbol: ' ', style: Style::default() }, 1, 1),
            (Cell { symbol: ' ', style: red }, 2, 1),
        ]
    );
    assert_eq!(
        b.diff(&a),
        vec![
            (Cell { symbol: ' ', style: Style::default() }, 2, 0),
            (Cell { symbol: 'z', style: Style::default() }, 1, 1),
            (Cell { symbol: ' ', style: Style::default() }, 2, 1),
        ]
    );
}

#[test]
fn diff_of_buffers_of_different_areas_is_every_cell() {
    let mut a = Buffer::new(area(2, 2));
    a.set_symbol('q', 1, 0);
    let b = Buffer::new(area(2, 3));
    let blank = Cell::default();
    assert_eq!(
        a.diff(&b),
        vec![
            (blank, 0, 0),
            (Cell { symbol: 'q', style: Style::default() }, 1, 0),
            (blank, 0, 1),
            (blank, 1, 1),
        ]
    );
    let moved = Buffer::new(Rect { top: 1, left: 0, height: 2, width: 2 });
    assert_eq!(Buffer::new(area(2, 2)).diff(&moved).len(), 4);
}

#[test]
fn enumerate_gives_columns_and_rows() {
    let items = vec![Cell::default(); 6];
    let placed = enumerate_2d(&items, area(3, 2));
    let places: Vec<(u16, u16)> = placed.iter().map(|e| (e.1, e.2)).collect();
    assert_eq!(places, vec![(0, 0), (1, 0), (2, 0), (0, 1), (1, 1), (2, 1)]);
}

#[test]
fn resize_cuts_and_fills() {
    let mut buffer = Buffer::new(area(3, 2));
    for (i, c) in "abcdef".chars().enumerate() {
        buffer.set(c, i);
    }
    buffer.resize(area(2, 2));
    assert_eq!(buffer.area(), area(2, 2));
    assert_eq!(rows(&buffer), vec!["ab", "cd"]);
    buffer.resize(area(3, 2));
    assert_eq!(rows(&buffer), vec!["abc", "d  "]);
    assert_eq!(buffer.len(), 6);
}

#[test]
fn resize_and_back_keeps_cells_whose_offsets_stay() {
    let mut buffer = Buffer::new(area(4, 3));
    for (i, c) in "0123456789ab".chars().enumerate() {
        buffer.set(c, i);
    }
    let before = rows(&buffer);
    buffer.resize(area(4, 5));
    buffer.resize(area(4, 3));
    assert_eq!(rows(&buffer), before);
    buffer.resize(area(4, 2));
    buffer.resize(area(4, 3));
    assert_eq!(rows(&buffer), vec!["0123", "4567", "    "]);
}

#[test]
fn resize_to_a_narrower_area_loses_cells_beyond_its_length() {
    let mut buffer = Buffer::new(area(10, 2));
    buffer.set_symbol('k', 1, 1);
    buffer.set_symbol('j', 1, 0);
    buffer.resize(area(2, 2));
    buffer.resize(area(10, 2));
    assert_eq!(buffer.get(1, 0).unwrap().symbol, 'j');
    assert_eq!(buffer.get(1, 1).unwrap().symbol, ' ');
}

#[test]
fn clear_makes_every_cell_blank() {
    let mut buffer = Buffer::new(area(2, 2));
    buffer.set_symbol('a', 0, 0);
    buffer.style_region(Style::default().fg(Color::Red), area(2, 1));
    assert_eq!(buffer.get(1, 0).unwrap().style.fg, Color::Red);
    assert_eq!(buffer.get(1, 1).unwrap().style.fg, Color::Reset);
    buffer.clear();
    assert_eq!(buffer.diff(&Buffer::new(area(2, 2))), vec![]);
    assert_eq!(buffer.area(), area(2, 2));
}

#[test]
fn set_outside_the_buffer_changes_nothing() {
    let mut buffer = Buffer::new(area(2, 2));
    buffer.set_symbol('a', 2, 0);
    buffer.set_symbol('a', 0, 2);
    buffer.set_style(Style::default().fg(Color::Red), 5, 5);
    assert_eq!(buffer.diff(&Buffer::new(area(2, 2))), vec![]);
}

#[test]
fn flush_moves_only_where_cells_are_apart() {
    let plain = Style::default();
    let bold = Style::default().add_modifier(Modifier::bold());
    let diff = vec![
        (Cell { symbol: 'a', style: plain }, 0, 0),
        (Cell { symbol: 'b', style: bold }, 1, 0),
        (Cell { symbol: 'c', style: bold }, 2, 0),
        (Cell { symbol: 'd', style: plain }, 0, 1),
        (Cell { symbol: 'e', style: plain }, 2, 1),
    ];
    let commands = commands_for(&diff, Some((7, 9)));
    assert_eq!(
        commands,
        vec![
            Command::MoveTo(0, 0),
            Command::Print('a'),
            Command::SetAttribute(Attribute::Bold),
            Command::Print('b'),
            Command::Print('c'),
            Command::MoveTo(0, 1),
            Command::SetAttribute(Attribute::NormalIntensity),
            Command::Print('d'),
            Command::MoveTo(2, 1),
            Command::Print('e'),
            Command::MoveTo(7, 9),
        ]
    );
}

#[test]
fn flush_resets_the_style_at_the_end() {
    let red = Style::default().fg(Color::Red).add_modifier(Modifier::reversed());
    let diff = vec![(Cell { symbol: 'r', style: red }, 3, 4)];
    assert_eq!(
        commands_for(&diff, None),
        vec![
            Command::MoveTo(3, 4),
            Command::SetForegroundColor(Color::Red),
            Command::SetAttribute(Attribute::Reverse),
            Command::Print('r'),
            Command::SetForegroundColor(Color::Reset),
            Command::SetAttribute(Attribute::NoReverse),
        ]
    );
    assert_eq!(commands_for(&vec![], None), vec![]);
    assert_eq!(commands_for(&vec![], Some((1, 2))), vec![Command::MoveTo(1, 2)]);
}

#[test]
fn a_cell_after_the_last_column_does_not_follow() {
    let plain = Cell::default();
    let diff = vec![(plain, u16::MAX, 0), (plain, 0, 0)];
    assert_eq!(
        commands_for(&diff, None),
        vec![
            Command::MoveTo(u16::MAX, 0),
            Command::Print(' '),
            Command::MoveTo(0, 0),
            Command::Print(' '),
        ]
    );
}

#[test]
fn draw_paints_only_what_changed() {
    let mut terminal = Terminal::new(area(3, 2));
    let commands = terminal.draw(|f| {
        f.set_char('h', 0, 0);
        f.set_char('i', 1, 0);
        Some((2, 0))
    });
    assert_eq!(
        commands,
        vec![
            Command::MoveTo(0, 0),
            Command::Print('h'),
            Command::Print('i'),
            Command::MoveTo(2, 0),
        ]
    );
    terminal.swap_buffers();
    assert_eq!(rows(terminal.display_buf()), vec!["hi ", "   "]);
    assert_eq!(rows(terminal.current_buf()), vec!["hi ", "   "]);

    let commands = terminal.draw(|f| {
        f.set_char('h', 0, 0);
        f.set_char('o', 1, 0);
        None
    });
    assert_eq!(commands, vec![Command::MoveTo(1, 0), Command::Print('o')]);
    terminal.swap_buffers();

    let commands = terminal.draw(|f| {
        f.set_char('h', 0, 0);
        f.set_char('o', 1, 0);
        None
    });
    assert_eq!(commands, vec![]);
}

#[test]
fn a_draw_that_was_not_shown_is_painted_again() {
    let mut terminal = Terminal::new(area(2, 1));
    let first = terminal.draw(|f| {
        f.set_char('a', 0, 0);
        None
    });
    let second = terminal.draw(|f| {
        f.set_char('a', 0, 0);
        None
    });
    assert_eq!(first, second);
    assert_eq!(first, vec![Command::MoveTo(0, 0), Command::Print('a')]);
}

#[test]
fn resize_between_draws_repaints_every_cell() {
    let mut terminal = Terminal::new(area(3, 2));
    let paint = |f: &mut Frame| {
        f.set_char('a', 0, 0);
        None
    };
    let commands = terminal.draw(paint);
    assert_eq!(prints(&commands), "a");
    terminal.swap_buffers();

    terminal.resize(area(4, 3));
    assert_eq!(terminal.current_buf().area(), area(4, 3));
    assert_eq!(terminal.display_buf().area(), area(3, 2));
    let commands = terminal.draw(paint);
    assert_eq!(prints(&commands), "a           ");
    assert_eq!(prints(&commands).len(), 4 * 3);
    let moves: Vec<&Command> =
        commands.iter().filter(|c| matches!(c, Command::MoveTo(..))).collect();
    assert_eq!(
        moves,
        vec![&Command::MoveTo(0, 0), &Command::MoveTo(0, 1), &Command::MoveTo(0, 2)]
    );
    terminal.swap_buffers();
    assert_eq!(terminal.display_buf().area(), area(4, 3));

    terminal.resize(area(4, 3));
    assert_eq!(terminal.draw(paint), vec![]);
}

#[test]
fn terminal_set_and_set_cursor_go_by_offset() {
    let mut terminal = Terminal::new(area(3, 2));
    terminal.set('z', 4);
    assert_eq!(rows(terminal.current_buf()), vec!["   ", " z "]);
    assert_eq!(terminal.set_cursor(4), Command::MoveTo(1, 1));
    assert_eq!(
        terminal.flush(None),
        vec![Command::MoveTo(1, 1), Command::Print('z')]
    );
}

#[test]
fn frame_draws_to_its_buffer() {
    let mut buffer = Buffer::new(area(3, 2));
    let mut frame = Frame::new(&mut buffer);
    assert_eq!(frame.size(), area(3, 2));
    assert_eq!(frame.region(), area(3, 2));
    frame.set_char('a', 2, 1);
    frame.set_char('b', 3, 1);
    frame.set_style(
        Style::default().fg(Color::Red),
        Rect { top: 1, left: 1, height: 5, width: 5 },
    );
    assert_eq!(rows(&buffer), vec!["   ", "  a"]);
    let red: Vec<bool> = (0..6)
        .map(|i| buffer.get(i % 3, i / 3).unwrap().style.fg == Color::Red)
        .collect();
    assert_eq!(red, vec![false, false, false, false, true, true]);
    let mut frame = Frame::new(&mut buffer);
    frame.clear();
    assert_eq!(buffer.diff(&Buffer::new(area(3, 2))), vec![]);
}

#[test]
fn text_is_cut_at_the_region() {
    let text = text_buffer("hello world\nab\n\nlast line\nnot shown");
    let mut buffer = Buffer::new(area(8, 6));
    let mut frame = Frame::new(&mut buffer);
    let region = Rect { top: 1, left: 2, height: 4, width: 5 };
    frame.render(&Text::new(&text, 0), region);
    assert_eq!(
        rows(&buffer),
        vec!["        ", "  hello ", "  ab    ", "        ", "  last  ", "        "]
    );
}

#[test]
fn text_that_is_cut_gets_the_marker() {
    let text = text_buffer("hello world\nhello\nhi");
    let mut buffer = Buffer::new(area(6, 3));
    let mut frame = Frame::new(&mut buffer);
    let mut shown = Text::new(&text, 0);
    shown.wrap(WrapMode::NoWrap(Some('>')));
    shown.render(&mut frame, area(5, 3));
    assert_eq!(rows(&buffer), vec!["hell> ", "hello ", "hi    "]);
}

#[test]
fn text_starts_with_its_first_line() {
    let text = text_buffer("zero\none\r\ntwo");
    let mut buffer = Buffer::new(area(4, 2));
    let mut frame = Frame::new(&mut buffer);
    frame.render(&Text::new(&text, 1), area(4, 2));
    assert_eq!(rows(&buffer), vec!["one ", "two "]);
    let mut buffer = Buffer::new(area(4, 2));
    let mut frame = Frame::new(&mut buffer);
    frame.render(&Text::new(&text, 3), area(4, 2));
    frame.render(&Text::new(&text, 9), area(4, 2));
    assert_eq!(rows(&buffer), vec!["    ", "    "]);
}

#[test]
fn text_keeps_the_styles_of_the_frame() {
    let text = text_buffer("ab");
    let mut buffer = Buffer::new(area(2, 1));
    let red = Style::default().fg(Color::Red);
    buffer.set_style(red, 0, 0);
    let mut frame = Frame::new(&mut buffer);
    frame.render(&Text::from(&text), area(2, 1));
    assert_eq!(buffer.get(0, 0), Some(Cell { symbol: 'a', style: red }));
    assert_eq!(buffer.get(1, 0), Some(Cell { symbol: 'b', style: Style::default() }));
}

#[test]
fn wrapped_text_goes_on_in_the_next_row() {
    let text = text_buffer("abcdefg\nhi\nxyz");
    let mut buffer = Buffer::new(area(5, 6));
    let mut frame = Frame::new(&mut buffer);
    let mut shown = Text::new(&text, 0);
    shown.wrap(WrapMode::Wrap);
    frame.render(&shown, Rect { top: 0, left: 1, height: 6, width: 3 });
    assert_eq!(
        rows(&buffer),
        vec![" abc ", " def ", " g   ", " hi  ", " xyz ", "     "]
    );
}

#[test]
fn wrapped_text_stops_at_the_last_row() {
    let text = text_buffer("abcd\nef\ngh");
    let mut buffer = Buffer::new(area(3, 4));
    let mut frame = Frame::new(&mut buffer);
    let mut shown = Text::new(&text, 0);
    shown.wrap(WrapMode::Wrap);
    frame.render(&shown, area(3, 3));
    assert_eq!(rows(&buffer), vec!["abc", "d  ", "ef ", "   "]);
}

#[test]
fn single_text_is_the_first_line() {
    let value = String::from("status\nmore");
    let single = SingleText::from(&value);
    let mut buffer = Buffer::new(area(8, 2));
    let mut frame = Frame::new(&mut buffer);
    single.render(&mut frame, Rect { top: 1, left: 1, height: 1, width: 3 });
    assert_eq!(rows(&buffer), vec!["        ", " status "]);

    let value = String::from("no feed");
    let mut buffer = Buffer::new(area(4, 1));
    let mut frame = Frame::new(&mut buffer);
    frame.render(&SingleText::from(&value), area(4, 1));
    assert_eq!(rows(&buffer), vec!["no f"]);
}

/// A terminal that obeys the commands of the renderer.
struct Simulated {
    cells: Vec<Cell>,
    width: u16,
    height: u16,
    cursor: (u32, u32),
    style: Style,
}

impl Simulated {
    fn new(width: u16, height: u16) -> Self {
        Simulated {
            cells: vec![Cell::default(); width as usize * height as usize],
            width,
            height,
            cursor: (0, 0),
            style: Style::default(),
        }
    }

    fn switch(&mut self, clear: u16, set: u16) {
        let bits = (self.style.modifiers.bits() & !clear) | set;
        self.style.modifiers = Modifier::from_bits_truncate(bits);
    }

    fn obey(&mut self, commands: &[Command]) {
        for command in commands {
            match *command {
                Command::MoveTo(x, y) => self.cursor = (x as u32, y as u32),
                Command::SetForegroundColor(c) => self.style = self.style.fg(c),
                Command::SetBackgroundColor(c) => self.style = self.style.bg(c),
                Command::SetAttribute(a) => match a {
                    Attribute::Bold => self.switch(0, 0x001),
                    Attribute::Dim => self.switch(0, 0x002),
                    Attribute::Italic => self.switch(0, 0x004),
                    Attribute::Underlined => self.switch(0, 0x008),
                    Attribute::SlowBlink => self.switch(0, 0x010),
                    Attribute::RapidBlink => self.switch(0, 0x020),
                    Attribute::Reverse => self.switch(0, 0x040),
                    Attribute::Hidden => self.switch(0, 0x080),
                    Attribute::CrossedOut => self.switch(0, 0x100),
                    Attribute::NormalIntensity => self.switch(0x003, 0),
                    Attribute::NoItalic => self.switch(0x004, 0),
                    Attribute::NoUnderline => self.switch(0x008, 0),
                    Attribute::NoBlink => self.switch(0x030, 0),
                    Attribute::NoReverse => self.switch(0x040, 0),
                    Attribute::NoHidden => self.switch(0x080, 0),
                    Attribute::NotCrossedOut => self.switch(0x100, 0),
                },
                Command::Print(symbol) => {
                    let (x, y) = self.cursor;
                    if x < self.width as u32 && y < self.height as u32 {
                        let i = y as usize * self.width as usize + x as usize;
                        self.cells[i] = Cell { symbol, style: self.style };
                    }
                    self.cursor.0 += 1;
                }
            }
        }
    }

    fn shows(&self, buffer: &Buffer) -> bool {
        let area = buffer.area();
        area.width == self.width
            && area.height == self.height
            && (0..self.cells.len()).all(|i| {
                buffer.get((i % self.width as usize) as u16, (i / self.width as usize) as u16)
                    == Some(self.cells[i])
            })
    }
}

#[test]
fn the_commands_of_each_flush_bring_a_terminal_up_to_date() {
    let mut terminal = Terminal::new(area(6, 3));
    let mut screen = Simulated::new(6, 3);
    let styles = [
        Style::default(),
        Style::default().fg(Color::Red).add_modifier(Modifier::bold()),
        Style::default().bg(Color::Blue).add_modifier(Modifier::dim().union(Modifier::italic())),
        Style::default().add_modifier(Modifier::slow_blink().union(Modifier::hidden())),
        Style::default().fg(Color::Red).add_modifier(Modifier::rapid_blink()),
    ];
    for round in 0..12u16 {
        let commands = terminal.draw(|f| {
            for n in 0..7u16 {
                let at = (n * 5 + round * 3) % 18;
                let symbol = (b'a' + ((n + round) % 26) as u8) as char;
                f.set_char(symbol, at % 6, at / 6);
                let style = styles[((n + round) % 5) as usize];
                f.set_style(style, Rect { top: at / 6, left: at % 6, height: 1, width: 2 });
            }
            Some((round % 6, round % 3))
        });
        screen.obey(&commands);
        assert!(screen.shows(terminal.current_buf()), "round {round}");
        assert_eq!(screen.style, Style::default());
        assert_eq!(screen.cursor, ((round % 6) as u32, (round % 3) as u32));
        terminal.swap_buffers();
        assert!(screen.shows(terminal.display_buf()));
    }
    terminal.resize(area(4, 2));
    let mut screen = Simulated::new(4, 2);
    screen.obey(&[Command::MoveTo(1, 1), Command::Print('?')]);
    let commands = terminal.draw(|f| {
        f.set_char('z', 3, 1);
        None
    });
    screen.obey(&commands);
    assert!(screen.shows(terminal.current_buf()));
}

#[test]
fn bold_and_dim_end_together() {
    let both = Style::default().add_modifier(Modifier::bold().union(Modifier::dim()));
    let dim = Style::default().add_modifier(Modifier::dim());
    assert_eq!(
        dim.diff(both).commands(),
        vec![Command::SetAttribute(Attribute::NormalIntensity)]
    );
    assert_eq!(
        both.diff(dim).commands(),
        vec![Command::SetAttribute(Attribute::Bold)]
    );
}
