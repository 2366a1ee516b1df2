use not_vim::editor::buffer::{Buffer, OpenError, ReadOutcome};
use not_vim::config::Message;
use not_vim::editor::{Editor, Mode, Request};

fn editor_of(text: &str) -> Editor {
    Editor::open("scratch.txt", ReadOutcome::Contents(text.to_string())).unwrap()
}

fn is_break(c: char) -> bool {
    matches!(c, '\n' | '\u{0B}' | '\u{0C}' | '\r' | '\u{85}' | '\u{2028}' | '\u{2029}')
}

/// The lines of a text without their line breaks, found by walking the
/// text once.
fn lines_by_hand(text: &str) -> Vec<String> {
    let chars: Vec<char> = text.chars().collect();
    let mut lines = vec![String::new()];
    let mut i = 0;
    while i < chars.len() {
        let c = chars[i];
        if is_break(c) {
            if c == '\r' && i + 1 < chars.len() && chars[i + 1] == '\n' {
                i += 1;
            }
            lines.push(String::new());
        } else {
            lines.last_mut().unwrap().push(c);
        }
        i += 1;
    }
    lines
}

fn move_to(editor: &mut Editor, x: usize, y: usize) {
    for _ in 0..y {
        editor.move_down();
    }
    for _ in 0..x {
        editor.move_right();
    }
    assert_eq!(editor.selected_pos(), (x, y));
}

#[test]
fn newline_at_end_of_first_line() {
    let mut editor = editor_of("ab\ncd");
    move_to(&mut editor, 2, 0);
    editor.newline();
    assert_eq!(editor.lines(), vec!["ab", "", "cd"]);
    assert_eq!(editor.selected_pos(), (0, 1));
    assert!(editor.is_well_formed());
    assert_eq!(editor.text(), "ab\n\ncd");
}

#[test]
fn insert_into_empty_buffer() {
    let mut editor = Editor::new(Buffer::empty());
    assert_eq!(editor.lines(), vec![""]);
    editor.push('x');
    assert_eq!(editor.lines(), vec!["x"]);
    assert_eq!(editor.selected_pos(), (1, 0));
    assert!(editor.is_well_formed());
}

#[test]
fn lines_agree_with_a_walk_over_the_text() {
    let texts = [
        "",
        "a",
        "\n",
        "a\n",
        "a\nb",
        "a\r\nb",
        "a\rb",
        "a\r\r\nb",
        "a\n\rb",
        "\r\n",
        "\r",
        "\r\n\r\n",
        "one\u{0B}two\u{0C}three\u{85}four\u{2028}five\u{2029}six",
        "tab\tis no break\n",
        "caf\u{e9}\r\n\u{4e16}\u{754c}\n",
        "\n\n\n",
        "x\r",
    ];
    for text in texts {
        let buffer = Buffer::open("f", ReadOutcome::Contents(text.to_string())).unwrap();
        let expected = lines_by_hand(text);
        assert_eq!(buffer.lines(), expected, "lines of {text:?}");
        assert_eq!(buffer.len_lines(), expected.len(), "number of lines of {text:?}");
        assert_eq!(buffer.len_chars(), text.chars().count());
        assert_eq!(buffer.text(), text);
        for (y, line) in expected.iter().enumerate() {
            assert_eq!(buffer.line_len(y), line.chars().count(), "line {y} of {text:?}");
            assert_eq!(&buffer.line(y), line);
            assert!(buffer.is_valid_position(line.chars().count(), y));
            assert!(!buffer.is_valid_position(line.chars().count() + 1, y));
        }
        assert!(!buffer.is_valid_position(0, expected.len()));
    }
}

#[test]
fn push_in_the_middle_of_a_line() {
    let mut editor = editor_of("ab\ncd\nef");
    move_to(&mut editor, 1, 1);
    editor.push('X');
    assert_eq!(editor.text(), "ab\ncXd\nef");
    assert_eq!(editor.lines(), vec!["ab", "cXd", "ef"]);
    assert_eq!(editor.selected_pos(), (2, 1));
    assert!(editor.is_well_formed());
}

#[test]
fn push_before_a_carriage_return_and_line_feed() {
    let mut editor = editor_of("ab\r\ncd");
    move_to(&mut editor, 2, 0);
    editor.push('!');
    assert_eq!(editor.text(), "ab!\r\ncd");
    assert_eq!(editor.lines(), vec!["ab!", "cd"]);
    assert_eq!(editor.selected_pos(), (3, 0));
    assert!(editor.is_well_formed());
}

#[test]
fn a_typed_line_break_breaks_the_line() {
    for c in ['\n', '\r', '\u{0B}', '\u{0C}', '\u{85}', '\u{2028}', '\u{2029}'] {
        let mut editor = editor_of("ab");
        move_to(&mut editor, 1, 0);
        assert_eq!(editor.apply(Message::Char(c)), Request::Continue);
        assert_eq!(editor.text(), "a\nb");
        assert_eq!(editor.lines(), vec!["a", "b"]);
        assert_eq!(editor.selected_pos(), (0, 1));
        assert!(editor.is_well_formed());
    }
}

#[test]
fn backspace_at_start_of_line_does_nothing() {
    let mut editor = editor_of("ab\ncd");
    move_to(&mut editor, 0, 1);
    editor.backspace();
    assert_eq!(editor.text(), "ab\ncd");
    assert_eq!(editor.selected_pos(), (0, 1));
    assert!(editor.is_well_formed());
}

#[test]
fn backspace_removes_the_character_before_the_cursor() {
    let mut editor = editor_of("ab\ncde");
    move_to(&mut editor, 2, 1);
    editor.backspace();
    assert_eq!(editor.text(), "ab\nce");
    assert_eq!(editor.lines(), vec!["ab", "ce"]);
    assert_eq!(editor.selected_pos(), (1, 1));
    assert!(editor.is_well_formed());
}

#[test]
fn backspace_between_carriage_return_and_line_feed_joins_them() {
    let mut editor = editor_of("a\rx\nb");
    assert_eq!(editor.lines(), vec!["a", "x", "b"]);
    move_to(&mut editor, 1, 1);
    editor.backspace();
    assert_eq!(editor.text(), "a\r\nb");
    assert_eq!(editor.lines(), vec!["a", "b"]);
    assert_eq!(editor.selected_pos(), (0, 1));
    assert!(editor.is_well_formed());
}

#[test]
fn newline_in_the_middle_of_a_line() {
    let mut editor = editor_of("hello\nworld");
    move_to(&mut editor, 2, 1);
    editor.newline();
    assert_eq!(editor.lines(), vec!["hello", "wo", "rld"]);
    assert_eq!(editor.selected_pos(), (0, 2));
    assert!(editor.is_well_formed());
}

#[test]
fn newline_after_a_carriage_return_splits_the_line_too() {
    let mut editor = editor_of("a\rb");
    move_to(&mut editor, 0, 1);
    editor.newline();
    assert_eq!(editor.text(), "a\r\rb");
    assert_eq!(editor.lines(), vec!["a", "", "b"]);
    assert_eq!(editor.selected_pos(), (0, 2));
    assert!(editor.is_well_formed());

    let mut editor = editor_of("a\r");
    move_to(&mut editor, 0, 1);
    editor.newline();
    assert_eq!(editor.text(), "a\r\r");
    assert_eq!(editor.lines(), vec!["a", "", ""]);
    assert_eq!(editor.selected_pos(), (0, 2));
    assert!(editor.is_well_formed());

    let mut editor = editor_of("a\rb\nc");
    move_to(&mut editor, 0, 1);
    editor.apply(Message::Enter);
    assert_eq!(editor.lines(), vec!["a", "", "b", "c"]);
    assert_eq!(editor.selected_pos(), (0, 2));
    assert!(editor.is_well_formed());

    let mut editor = editor_of("a\r\nb");
    move_to(&mut editor, 0, 1);
    editor.newline();
    assert_eq!(editor.text(), "a\r\n\nb");
    assert_eq!(editor.lines(), vec!["a", "", "b"]);
}

#[test]
fn moves_stay_in_the_text() {
    let mut editor = editor_of("abc\nd\n");
    editor.move_left();
    assert_eq!(editor.selected_pos(), (0, 0));
    editor.move_up();
    assert_eq!(editor.selected_pos(), (0, 0));
    editor.move_right();
    editor.move_right();
    editor.move_right();
    assert_eq!(editor.selected_pos(), (3, 0));
    editor.move_right();
    assert_eq!(editor.selected_pos(), (3, 0));
    editor.move_down();
    assert_eq!(editor.selected_pos(), (1, 1));
    editor.move_down();
    assert_eq!(editor.selected_pos(), (0, 2));
    editor.move_down();
    assert_eq!(editor.selected_pos(), (0, 2));
    editor.move_up();
    assert_eq!(editor.selected_pos(), (0, 1));
    editor.move_right();
    editor.move_up();
    assert_eq!(editor.selected_pos(), (1, 0));
    editor.move_left();
    assert_eq!(editor.selected_pos(), (0, 0));
    assert!(editor.is_well_formed());
}

#[test]
fn cursor_stays_valid_through_a_run_of_edits() {
    let mut editor = editor_of("one\r\ntwo\n\nthree");
    let keys = "dlllxjjbhhxnkkxlnjjjbbbxkn";
    for key in keys.chars() {
        match key {
            'h' => editor.move_left(),
            'l' => editor.move_right(),
            'j' => editor.move_down(),
            'k' => editor.move_up(),
            'b' => editor.backspace(),
            'n' => editor.newline(),
            c => editor.push(c),
        }
        assert!(editor.is_well_formed(), "after {key:?}");
        let (x, y) = editor.selected_pos();
        let lines = editor.lines();
        assert!(y < lines.len());
        assert!(x <= lines[y].chars().count());
        assert_eq!(lines, lines_by_hand(&editor.text()));
    }
}

#[test]
fn open_of_a_missing_file_gives_an_empty_buffer_for_it() {
    let buffer = Buffer::open("new.txt", ReadOutcome::NotFound).unwrap();
    assert_eq!(buffer.text(), "");
    assert_eq!(buffer.file(), Some("new.txt".to_string()));
    assert_eq!(buffer.write(), Some(("new.txt".to_string(), String::new())));
}

#[test]
fn open_fails_where_the_file_cannot_be_read() {
    assert_eq!(
        Buffer::open("f", ReadOutcome::PermissionDenied).err(),
        Some(OpenError::PermissionDenied)
    );
    assert_eq!(Buffer::open("f", ReadOutcome::Failed).err(), Some(OpenError::Unknown));
    assert_eq!(
        Editor::open("f", ReadOutcome::PermissionDenied).err(),
        Some(OpenError::PermissionDenied)
    );
    assert_eq!(Editor::open("f", ReadOutcome::Failed).err(), Some(OpenError::Unknown));
}

#[test]
fn a_buffer_without_a_file_is_not_written() {
    let buffer = Buffer::empty();
    assert_eq!(buffer.write(), None);
    assert_eq!(buffer.file(), None);
}

#[test]
fn written_text_opens_to_the_same_lines() {
    let mut editor = editor_of("fn main() {\r\n}\n");
    move_to(&mut editor, 11, 0);
    editor.newline();
    editor.push('x');
    let before = editor.lines();
    let (path, text) = editor.write().unwrap();
    assert_eq!(path, "scratch.txt");
    let again = Editor::open(&path, ReadOutcome::Contents(text)).unwrap();
    assert_eq!(again.lines(), before);
    assert_eq!(again.text(), editor.text());
}

#[test]
fn an_editor_starts_in_normal_mode() {
    let mut editor = editor_of("");
    assert_eq!(editor.mode(), Mode::Normal);
    editor.set_mode(Mode::Insert);
    assert_eq!(editor.mode(), Mode::Insert);
    assert!(editor.has_room());
}

#[test]
fn a_clone_of_a_buffer_holds_its_text() {
    let buffer = Buffer::open("f", ReadOutcome::Contents("a\nb".to_string())).unwrap();
    let copy = buffer.clone();
    assert_eq!(copy.text(), "a\nb");
    assert_eq!(copy.file(), Some("f".to_string()));
}

#[test]
fn raw_lines_keep_their_line_breaks() {
    let buffer = Buffer::open("f", ReadOutcome::Contents("ab\r\ncd\n\nlast".to_string())).unwrap();
    assert_eq!(buffer.raw_line(0), "ab\r\n");
    assert_eq!(buffer.raw_line(1), "cd\n");
    assert_eq!(buffer.raw_line(2), "\n");
    assert_eq!(buffer.raw_line(3), "last");
    assert_eq!(buffer.char_at(1, 1), 'd');
}

#[test]
fn cursor_pos_is_the_position_in_sixteen_bits() {
    let mut editor = editor_of("ab\ncd");
    move_to(&mut editor, 1, 1);
    assert_eq!(editor.cursor_pos(), (1, 1));
    let long: String = "\n".repeat(65537);
    let mut editor = editor_of(&long);
    for _ in 0..65537 {
        editor.move_down();
    }
    assert_eq!(editor.selected_pos(), (0, 65537));
    assert_eq!(editor.cursor_pos(), (0, 1));
}

#[test]
fn a_long_text_with_many_edits_keeps_its_lines() {
    let mut text = String::new();
    for i in 0..1500 {
        text.push_str("line ");
        text.push_str(&i.to_string());
        text.push_str(match i % 4 {
            0 => "\r\n",
            1 => "\n",
            2 => "\r",
            _ => "\u{2028}",
        });
    }
    let mut editor = editor_of(&text);
    assert_eq!(editor.lines(), lines_by_hand(&text));
    let mut seed: u64 = 12345;
    for step in 0..3000 {
        seed = seed.wrapping_mul(6364136223846793005).wrapping_add(1442695040888963407);
        let choice = (seed >> 33) % 16;
        let before = editor.text();
        let (x, y) = editor.selected_pos();
        match choice {
            0..=2 => editor.move_down(),
            3 => editor.move_up(),
            4..=5 => editor.move_right(),
            6 => editor.move_left(),
            7..=8 => editor.backspace(),
            9 => {
                let lines = editor.buffer().len_lines();
                editor.newline();
                assert_eq!(editor.buffer().len_lines(), lines + 1);
                assert_eq!(editor.selected_pos(), (0, y + 1));
            }
            _ => editor.push((b'a' + (choice as u8)) as char),
        }
        assert!(editor.is_well_formed(), "step {step} from {:?}", (x, y));
        if step % 500 == 0 {
            assert_eq!(editor.lines(), lines_by_hand(&editor.text()), "step {step}");
            assert_eq!(editor.buffer().len_chars(), editor.text().chars().count());
        }
        if choice < 7 {
            assert_eq!(editor.text(), before);
        }
    }
    let lines = editor.lines();
    assert_eq!(lines, lines_by_hand(&editor.text()));
    for (y, line) in lines.iter().enumerate().step_by(97) {
        assert_eq!(editor.buffer().line_len(y), line.chars().count());
        assert_eq!(&editor.buffer().line(y), line);
    }
}
