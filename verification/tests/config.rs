use not_vim::args::{Args, ArgsError};
use not_vim::config::{
    insert_mode_event, normal_mode_event, translate_event, wrap_mode, Key, KeyCode, Message,
    WrapMode, ALT, CONTROL, NONE, SHIFT,
};
use not_vim::editor::buffer::ReadOutcome;
use not_vim::editor::{trim_newlines, Editor, Mode, Request};
use not_vim::editor_view::{decimal, EditorView};
use not_vim::tui::buffer::Buffer;
use not_vim::tui::frame::Frame;
use not_vim::tui::rect::Rect;
use not_vim::tui::style::Color;

fn plain(code: KeyCode) -> Key {
    Key::new(code, NONE)
}

fn rows(buffer: &Buffer) -> Vec<String> {
    let area = buffer.area();
    (0..area.height)
        .map(|y| (0..area.width).map(|x| buffer.get(x, y).unwrap().symbol).collect())
        .collect()
}

#[test]
fn escape_in_normal_mode_does_nothing() {
    assert_eq!(translate_event(Mode::Normal, plain(KeyCode::Esc)), Message::Nothing);
    assert_eq!(normal_mode_event(plain(KeyCode::Esc)), Message::Nothing);
}

#[test]
fn normal_mode_keys() {
    let control = |c| Key::new(KeyCode::Char(c), CONTROL);
    assert_eq!(normal_mode_event(control('q')), Message::Quit);
    assert_eq!(normal_mode_event(control('w')), Message::Write);
    assert_eq!(normal_mode_event(plain(KeyCode::Char('q'))), Message::Nothing);
    assert_eq!(normal_mode_event(plain(KeyCode::Char('w'))), Message::Nothing);
    assert_eq!(normal_mode_event(control('h')), Message::Nothing);
    for (keys, message) in [
        ([KeyCode::Left, KeyCode::Char('h')], Message::Left),
        ([KeyCode::Right, KeyCode::Char('l')], Message::Right),
        ([KeyCode::Up, KeyCode::Char('k')], Message::Up),
        ([KeyCode::Down, KeyCode::Char('j')], Message::Down),
    ] {
        for key in keys {
            assert_eq!(normal_mode_event(plain(key)), message);
            assert_eq!(translate_event(Mode::Normal, plain(key)), message);
            assert_eq!(normal_mode_event(Key::new(key, SHIFT)), Message::Nothing);
        }
    }
    assert_eq!(normal_mode_event(plain(KeyCode::Char('i'))), Message::Mode(Mode::Insert));
    assert_eq!(normal_mode_event(plain(KeyCode::Char('x'))), Message::Nothing);
    assert_eq!(normal_mode_event(plain(KeyCode::Enter)), Message::Nothing);
    assert_eq!(normal_mode_event(plain(KeyCode::Backspace)), Message::Nothing);
    assert_eq!(normal_mode_event(Key::new(KeyCode::Char('q'), CONTROL | ALT)), Message::Nothing);
}

#[test]
fn insert_mode_keys() {
    assert_eq!(insert_mode_event(plain(KeyCode::Enter)), Message::Enter);
    assert_eq!(insert_mode_event(plain(KeyCode::Backspace)), Message::Backspace);
    assert_eq!(insert_mode_event(plain(KeyCode::Left)), Message::Left);
    assert_eq!(insert_mode_event(plain(KeyCode::Right)), Message::Right);
    assert_eq!(insert_mode_event(plain(KeyCode::Up)), Message::Up);
    assert_eq!(insert_mode_event(plain(KeyCode::Down)), Message::Down);
    assert_eq!(insert_mode_event(plain(KeyCode::Esc)), Message::Mode(Mode::Normal));
    for c in ['a', 'h', 'q', 'i', ' ', '\u{e9}'] {
        assert_eq!(insert_mode_event(plain(KeyCode::Char(c))), Message::Char(c));
        assert_eq!(translate_event(Mode::Insert, plain(KeyCode::Char(c))), Message::Char(c));
    }
    assert_eq!(insert_mode_event(Key::new(KeyCode::Char('q'), CONTROL)), Message::Nothing);
    assert_eq!(insert_mode_event(Key::new(KeyCode::Enter, ALT)), Message::Nothing);
    assert_eq!(insert_mode_event(plain(KeyCode::Tab)), Message::Nothing);
    assert_eq!(insert_mode_event(plain(KeyCode::F(1))), Message::Nothing);
}

#[test]
fn the_configured_wrap_mode_marks_cut_lines() {
    assert_eq!(wrap_mode(), WrapMode::NoWrap(Some('>')));
}

#[test]
fn apply_does_what_the_message_asks() {
    let mut editor = Editor::open("f", ReadOutcome::Contents("ab\ncd".to_string())).unwrap();
    assert_eq!(editor.apply(Message::Quit), Request::Quit);
    assert_eq!(editor.apply(Message::Write), Request::Write);
    assert_eq!(editor.apply(Message::Nothing), Request::Continue);
    assert_eq!(editor.text(), "ab\ncd");
    assert_eq!(editor.apply(Message::Mode(Mode::Insert)), Request::Continue);
    assert_eq!(editor.mode(), Mode::Insert);
    assert_eq!(editor.apply(Message::Right), Request::Continue);
    assert_eq!(editor.apply(Message::Char('X')), Request::Continue);
    assert_eq!(editor.apply(Message::Enter), Request::Continue);
    assert_eq!(editor.text(), "aX\nb\ncd");
    assert_eq!(editor.selected_pos(), (0, 1));
    editor.apply(Message::Down);
    editor.apply(Message::Right);
    editor.apply(Message::Right);
    editor.apply(Message::Backspace);
    assert_eq!(editor.text(), "aX\nb\nc");
    editor.apply(Message::Up);
    editor.apply(Message::Left);
    assert_eq!(editor.selected_pos(), (0, 1));
    assert!(editor.is_well_formed());
}

#[test]
fn a_full_session_from_keys() {
    let mut editor = Editor::new(not_vim::editor::buffer::Buffer::empty());
    let keys = [
        plain(KeyCode::Char('x')),
        plain(KeyCode::Char('i')),
        plain(KeyCode::Char('h')),
        plain(KeyCode::Char('i')),
        plain(KeyCode::Enter),
        plain(KeyCode::Char('!')),
        plain(KeyCode::Esc),
        plain(KeyCode::Char('k')),
        Key::new(KeyCode::Char('w'), CONTROL),
        Key::new(KeyCode::Char('q'), CONTROL),
    ];
    let mut requests = Vec::new();
    for key in keys {
        let message = translate_event(editor.mode(), key);
        requests.push(editor.apply(message));
        assert!(editor.is_well_formed());
    }
    assert_eq!(editor.text(), "hi\n!");
    assert_eq!(editor.selected_pos(), (1, 0));
    assert_eq!(editor.mode(), Mode::Normal);
    assert_eq!(&requests[8..], &[Request::Write, Request::Quit]);
    assert!(requests[..8].iter().all(|r| *r == Request::Continue));
}

#[test]
fn trim_newlines_strips_every_trailing_break() {
    assert_eq!(trim_newlines("abc\n"), "abc");
    assert_eq!(trim_newlines("abc\r\n"), "abc");
    assert_eq!(trim_newlines("abc"), "abc");
    assert_eq!(trim_newlines(""), "");
    assert_eq!(trim_newlines("\n"), "");
    assert_eq!(trim_newlines("a\nb\n\n\r"), "a\nb");
    assert_eq!(trim_newlines("\u{4e16}\u{2028}\u{2029}\u{85}\u{0B}\u{0C}"), "\u{4e16}");
    assert_eq!(trim_newlines("tab\t"), "tab\t");
}

#[test]
fn args_need_a_file() {
    let words = |w: &[&str]| w.iter().map(|s| s.to_string()).collect::<Vec<_>>();
    assert_eq!(Args::parse_args(&words(&["not_vim", "a.txt"])).unwrap().file, "a.txt");
    assert_eq!(Args::parse_args(&words(&["not_vim", "a.txt", "b"])).unwrap().file, "a.txt");
    assert_eq!(Args::parse_args(&words(&["not_vim"])).err(), Some(ArgsError::MissingFile));
    assert_eq!(Args::parse_args(&words(&[])).err(), Some(ArgsError::MissingFile));
    assert_eq!(ArgsError::MissingFile.message(), "Expected to be passed a file name");
}

#[test]
fn decimal_digits() {
    let text = |n| decimal(n).into_iter().collect::<String>();
    assert_eq!(text(0), "0");
    assert_eq!(text(7), "7");
    assert_eq!(text(10), "10");
    assert_eq!(text(65536), "65536");
    assert_eq!(text(4294967295), "4294967295");
    assert_eq!(text(1234567890), "1234567890");
}

#[test]
fn the_view_follows_the_cursor() {
    let text: String = (0..30).map(|i| format!("line {i}\n")).collect();
    let editor = Editor::open("f", ReadOutcome::Contents(text)).unwrap();
    let mut view = EditorView::new(editor);
    assert_eq!(view.view_pos(), (0, 0));
    view.resize((80, 10));
    assert_eq!(view.view_pos(), (0, 0));
    for _ in 0..8 {
        view.editor_mut().move_down();
    }
    view.resize((80, 10));
    assert_eq!(view.view_pos(), (0, 0));
    assert_eq!(view.cursor_on_screen(), Some((0, 8)));
    view.editor_mut().move_down();
    view.resize((80, 10));
    assert_eq!(view.view_pos(), (0, 1));
    assert_eq!(view.cursor_on_screen(), Some((0, 8)));
    for _ in 0..11 {
        view.editor_mut().move_down();
    }
    view.resize((80, 10));
    assert_eq!(view.editor().selected_pos(), (0, 20));
    assert_eq!(view.selected_pos(), (0, 20));
    assert_eq!(view.view_pos(), (0, 12));
    for _ in 0..15 {
        view.editor_mut().move_up();
    }
    assert_eq!(view.cursor_on_screen(), None);
    view.resize((80, 10));
    assert_eq!(view.view_pos(), (0, 5));
    assert_eq!(view.cursor_on_screen(), Some((0, 0)));
    view.resize((80, 3));
    assert_eq!(view.view_pos(), (0, 5));
    view.resize((80, 1));
    assert_eq!(view.view_pos(), (0, 6));
}

#[test]
fn the_view_draws_text_and_status_bar() {
    let mut editor =
        Editor::open("f", ReadOutcome::Contents("a long line of text here\nb\nc\nd".to_string()))
            .unwrap();
    editor.move_down();
    editor.move_right();
    let mut view = EditorView::new(editor);
    view.resize((20, 3));
    let mut buffer = Buffer::new(Rect { top: 0, left: 0, height: 3, width: 20 });
    let mut frame = Frame::new(&mut buffer);
    let region = frame.size();
    view.render(&mut frame, region);
    assert_eq!(
        rows(&buffer),
        vec!["a long line of text>", "b                   ", "     2:2            "]
    );
    for x in 0..20 {
        assert_eq!(buffer.get(x, 2).unwrap().style.fg, Color::Black);
        assert_eq!(buffer.get(x, 2).unwrap().style.bg, Color::White);
        assert_eq!(buffer.get(x, 1).unwrap().style.bg, Color::Reset);
    }
    assert_eq!(view.cursor_on_screen(), Some((1, 1)));
}

#[test]
fn a_narrow_view_shows_what_fits_of_the_status_bar() {
    let mut editor = Editor::open("f", ReadOutcome::Contents("ab\ncd".to_string())).unwrap();
    editor.move_down();
    editor.move_right();
    let mut view = EditorView::new(editor);
    view.resize((13, 2));
    let mut buffer = Buffer::new(Rect { top: 0, left: 0, height: 2, width: 13 });
    let mut frame = Frame::new(&mut buffer);
    let region = frame.size();
    view.render(&mut frame, region);
    assert_eq!(rows(&buffer), vec!["cd           ", "2            "]);
    assert_eq!(buffer.get(12, 1).unwrap().style.bg, Color::White);

    let mut buffer = Buffer::new(Rect { top: 0, left: 0, height: 1, width: 3 });
    let mut frame = Frame::new(&mut buffer);
    let region = frame.size();
    view.render(&mut frame, region);
    assert_eq!(rows(&buffer), vec!["   "]);
    assert_eq!(buffer.get(0, 0).unwrap().style.fg, Color::Black);
}
