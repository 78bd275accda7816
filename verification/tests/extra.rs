use prettybuf::{prettify_text, Content, GetString};

#[test]
fn test_render_round_trip_plain() {
    let typed = "fn main() {\n    let x = 1;\n}\n";
    let c = Content::from_string(typed);
    assert_eq!(&c.get_string(), typed);
}

#[test]
fn test_render_round_trip_empty() {
    let c = Content::from_string("");
    assert_eq!(&c.get_string(), "");
}

#[test]
fn test_render_typed_only_ignores_virtual() {
    let typed = "fn test(&self,other:&mut usize){let x=(self+1)*other;return1<y}";
    let visible = "fn test(&self, other: &mut usize) {\n    let x = (self + 1) * other;\n    return 1 < y\n}";
    let c = Content::from_strings(&typed, &visible);
    assert_eq!(&c.render_typed_only(), typed);
}

#[test]
fn test_clear_virtual_whitespace_restores_typed() {
    let typed = "let x = [a,b,c]";
    let visible = "let x = [a, b, c, ]";
    let mut c = Content::from_strings(&typed, &visible);
    c.clear_virtual_whitespace();
    assert_eq!(&c.get_string(), typed);
}

#[test]
fn test_update_virtual_whitespace_formats() {
    let typed = "fn test(&self,other:&mut usize){let x=(self+1)*other;return1<y}";
    let visible = "fn test(&self, other: &mut usize) {\n    let x = (self + 1) * other;\n    return 1 < y\n}";
    let mut c = Content::from_string(typed);
    let r = c.update_virtual_whitespace(Some(visible));
    assert_eq!(&r, visible);
    assert_eq!(&c.get_string(), visible);
}

#[test]
fn test_update_virtual_whitespace_failure_leaves_buffer() {
    let typed = "let x = 1;";
    let mut c = Content::from_string(typed);
    let r = c.update_virtual_whitespace(None);
    assert_eq!(&r, "error");
    assert_eq!(&c.get_string(), typed);
}

#[test]
fn test_cursor_pos_plain() {
    let mut c = Content::from_string("ab");
    c.cursor_right();
    let pos = c.cursor_pos();
    assert_eq!(pos, ((0, 1), (0, 1)));
}

#[test]
fn test_cursor_pos_split_caret() {
    let mut c = Content::from_strings("a5", "a\n  5");
    c.cursor_right();
    let pos = c.cursor_pos();
    assert_eq!(pos.0, (0, 1));
    assert_eq!(pos.1, (1, 2));
}

#[test]
fn test_cursor_pos_walks_typed_whitespace() {
    let mut c = Content::from_string("a\n  b");
    c.cursor_right(); // to the first slot of "b"'s run, before the newline
    c.cursor_right(); // past the newline
    c.cursor_right(); // past the first space
    let pos = c.cursor_pos();
    assert_eq!(pos, ((1, 1), (1, 1)));
}

#[test]
fn test_cursor_moves_at_boundaries() {
    let mut c = Content::from_string("");
    c.cursor_left();
    c.cursor_right();
    c.backspace();
    c.delete();
    assert_eq!(&c.get_string(), "");
    assert_eq!(c.cursor_pos(), ((0, 0), (0, 0)));
}

#[test]
fn test_backspace_merges_elements() {
    let mut c = Content::from_string("ab");
    c.cursor_right();
    c.cursor_right();
    c.backspace(); // deletes "b"
    assert_eq!(&c.get_string(), "a");
    c.backspace(); // deletes "a"
    assert_eq!(&c.get_string(), "");
    c.backspace(); // no-op at the start of the buffer
    assert_eq!(&c.get_string(), "");
}

#[test]
fn test_insert_characters_and_whitespace() {
    let mut c = Content::from_string("");
    c.insert('a');
    c.insert(' ');
    c.insert('b');
    c.insert('\n');
    c.insert('c');
    assert_eq!(&c.get_string(), "a b\nc");
}

#[test]
fn test_insert_splits_whitespace_run() {
    let mut c = Content::from_string("  x");
    c.cursor_right(); // between the two spaces
    c.insert('y');
    assert_eq!(&c.get_string(), " y x");
}

#[test]
fn test_prettify_text_wraps_greedily() {
    let out = prettify_text(String::from("hello world foo"), 11);
    assert_eq!(out, Some(String::from("hello world \nfoo")));
}

#[test]
fn test_prettify_text_narrow() {
    let out = prettify_text(String::from("a  b"), 1);
    assert_eq!(out, Some(String::from("a \nb")));
}

#[test]
fn test_prettify_text_empty() {
    let out = prettify_text(String::from(""), 5);
    assert_eq!(out, Some(String::from("")));
}

#[test]
fn test_prettify_text_tab_separates_words() {
    let out = prettify_text(String::from("a\tb"), 5);
    assert_eq!(out, Some(String::from("a b")));
}
