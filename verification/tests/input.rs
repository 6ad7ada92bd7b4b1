use cli_terminal::widgets::input::InputBuffer;

#[test]
fn test_basic_insert() {
    let mut buf = InputBuffer::new();
    buf.insert('a');
    buf.insert('b');
    buf.insert('c');
    assert_eq!(buf.text(), "abc");
    assert_eq!(buf.cursor(), 3);
}

#[test]
fn test_backspace() {
    let mut buf = InputBuffer::new();
    buf.insert('a');
    buf.insert('b');
    buf.insert('c');
    buf.backspace();
    assert_eq!(buf.text(), "ab");
    assert_eq!(buf.cursor(), 2);
}

#[test]
fn test_backspace_at_start() {
    let mut buf = InputBuffer::new();
    buf.insert('a');
    buf.move_home();
    buf.backspace();
    assert_eq!(buf.text(), "a");
    assert_eq!(buf.cursor(), 0);
}

#[test]
fn test_delete_to_start() {
    let mut buf = InputBuffer::new();
    buf.insert('h');
    buf.insert('e');
    buf.insert('l');
    buf.insert('l');
    buf.insert('o');
    buf.move_home();
    buf.move_right();
    buf.move_right();
    buf.delete_to_start();
    assert_eq!(buf.text(), "llo");
    assert_eq!(buf.cursor(), 0);
}

#[test]
fn test_delete_to_end() {
    let mut buf = InputBuffer::new();
    buf.insert('h');
    buf.insert('e');
    buf.insert('l');
    buf.insert('l');
    buf.insert('o');
    buf.move_home();
    buf.move_right();
    buf.move_right();
    buf.delete_to_end();
    assert_eq!(buf.text(), "he");
    assert_eq!(buf.cursor(), 2);
}

#[test]
fn test_delete_word() {
    let mut buf = InputBuffer::new();
    for ch in "hello world".chars() {
        buf.insert(ch);
    }
    buf.delete_word();
    assert_eq!(buf.text(), "hello ");
    assert_eq!(buf.cursor(), 6);
    buf.delete_word();
    assert_eq!(buf.text(), "");
    assert_eq!(buf.cursor(), 0);
}

#[test]
fn test_unicode_grapheme() {
    let mut buf = InputBuffer::new();
    buf.insert('👋');
    buf.insert('a');
    assert_eq!(buf.text(), "👋a");
    assert_eq!(buf.cursor(), 2);
    buf.backspace();
    assert_eq!(buf.text(), "👋");
    assert_eq!(buf.cursor(), 1);
}

#[test]
fn test_delete_word_with_unicode() {
    let mut buf = InputBuffer::new();
    for ch in "hello 世界".chars() {
        buf.insert(ch);
    }
    buf.delete_word();
    assert_eq!(buf.text(), "hello ");
}

#[test]
fn input_test_clear() {
    let mut buf = InputBuffer::new();
    buf.insert('a');
    buf.insert('b');
    buf.clear();
    assert!(buf.is_empty());
    assert_eq!(buf.cursor(), 0);
}

#[test]
fn test_move_home_end() {
    let mut buf = InputBuffer::new();
    for ch in "test".chars() {
        buf.insert(ch);
    }
    buf.move_home();
    assert_eq!(buf.cursor(), 0);
    buf.move_end();
    assert_eq!(buf.cursor(), 4);
}

#[test]
fn input_insert_in_middle() {
    let mut buf = InputBuffer::new();
    for ch in "ac".chars() {
        buf.insert(ch);
    }
    buf.move_left();
    buf.insert('b');
    assert_eq!(buf.text(), "abc");
    assert_eq!(buf.cursor(), 2);
}

#[test]
fn input_delete_at_cursor_and_at_end() {
    let mut buf = InputBuffer::new();
    for ch in "abc".chars() {
        buf.insert(ch);
    }
    buf.delete();
    assert_eq!(buf.text(), "abc");
    buf.move_home();
    buf.delete();
    assert_eq!(buf.text(), "bc");
    assert_eq!(buf.cursor(), 0);
}

#[test]
fn input_combining_mark_merges_cluster() {
    let mut buf = InputBuffer::new();
    buf.insert('e');
    buf.insert('\u{301}');
    assert_eq!(buf.text(), "e\u{301}");
    // The cursor counts insertions, beyond the single cluster.
    assert_eq!(buf.cursor(), 2);
    assert_eq!(buf.cursor_byte(), 3);
    buf.backspace();
    assert_eq!(buf.text(), "");
    assert_eq!(buf.cursor(), 1);
    buf.backspace();
    assert_eq!(buf.text(), "");
    assert_eq!(buf.cursor(), 0);
}

#[test]
fn input_cursor_byte_counts_utf8() {
    let mut buf = InputBuffer::new();
    for ch in "é世a".chars() {
        buf.insert(ch);
    }
    buf.move_home();
    assert_eq!(buf.cursor_byte(), 0);
    buf.move_right();
    assert_eq!(buf.cursor_byte(), 2);
    buf.move_right();
    assert_eq!(buf.cursor_byte(), 5);
    buf.move_right();
    assert_eq!(buf.cursor_byte(), 6);
    buf.move_right();
    assert_eq!(buf.cursor(), 3);
}

#[test]
fn input_delete_word_skips_trailing_space() {
    let mut buf = InputBuffer::new();
    for ch in "ls -la   ".chars() {
        buf.insert(ch);
    }
    buf.delete_word();
    assert_eq!(buf.text(), "ls ");
    assert_eq!(buf.cursor(), 3);
}

#[test]
fn input_delete_to_ends_split_line() {
    let text = "split here";
    let mut a = InputBuffer::new();
    let mut b = InputBuffer::new();
    for ch in text.chars() {
        a.insert(ch);
        b.insert(ch);
    }
    for _ in 0..4 {
        a.move_left();
        b.move_left();
    }
    a.delete_to_end();
    b.delete_to_start();
    assert_eq!(format!("{}{}", a.text(), b.text()), text);
    assert_eq!(a.text(), "split ");
    assert_eq!(b.text(), "here");
}

#[test]
fn input_flag_emoji_is_one_cluster() {
    let mut buf = InputBuffer::new();
    buf.insert('🇷');
    buf.insert('🇺');
    buf.move_home();
    buf.move_right();
    assert_eq!(buf.cursor(), 1);
    assert_eq!(buf.cursor_byte(), 8);
    buf.delete_to_start();
    assert_eq!(buf.text(), "");
}
