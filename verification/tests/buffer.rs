use prettybuf::WhitespaceChar::{Newline, Space};
use prettybuf::{Content, GetString, Whitespace};

#[test]
fn test() {
    let typed = "fn test(&self,other:&mut usize){let x=(self+1)*other;return1<y}";
    let visible = "fn test(&self, other: &mut usize) {\n    let x = (self + 1) * other;\n    return 1 < y\n}";
    let c = Content::from_strings(&typed, &visible);
    let s = c.get_string();
    assert_eq!(&s, visible);
}

#[test]
fn test_extra_whitespace() {
    let typed = "fn test(&self,  other:\n  \n&mut usize){let x=(self+1)*other;\n return1<y}";
    let visible = "fn test(&self, other: &mut usize) {\n    let x = (self + 1) * other;\n    return 1 < y\n}";
    let out = "fn test(&self,  other:\n  \n&mut usize) {\n    let x = (self + 1) * other;\n    return 1 < y\n}";
    let c = Content::from_strings(&typed, &visible);
    let s = c.get_string();
    assert_eq!(&s, out);
}

#[test]
fn test_visible_contains_extra_comma() {
    let typed = "let x = [a,b,c]";
    let visible = "let x = [a, b, c, ]";
    let out = "let x = [a, b, c ]";
    let c = Content::from_strings(&typed, &visible);
    let s = c.get_string();
    assert_eq!(&s, out);
}

#[test]
fn test_visible_doesnt_contain_comma() {
    let typed = "let x = [a,b,c,];let y = 15;";
    let visible = "let x = [a, b, c];let y = 15;";
    let out = "let x = [a, b, c,];let y = 15;";
    let c = Content::from_strings(&typed, &visible);
    let s = c.get_string();
    assert_eq!(&s, out);
}

#[test]
fn test_num_cursor_positions() {
    let ws = Whitespace { typed: vec![], virtual_newlines: 0, virtual_spaces: 0 };
    assert_eq!(ws.get_num_cursor_positions(), 1);
}

#[test]
fn test_num_cursor_positions_typed_only() {
    let ws = Whitespace { typed: vec![Space, Space], virtual_newlines: 0, virtual_spaces: 0 };
    assert_eq!(ws.get_num_cursor_positions(), 3);

    let ws = Whitespace { typed: vec![Newline], virtual_newlines: 0, virtual_spaces: 0 };
    assert_eq!(ws.get_num_cursor_positions(), 2);
}

#[test]
fn test_num_cursor_positions_virtual_only() {
    let ws = Whitespace { typed: vec![], virtual_newlines: 0, virtual_spaces: 3 };
    assert_eq!(ws.get_num_cursor_positions(), 1);

    // Virtual whitespace contributes no addressable slots, so the counts
    // stay at the typed length plus one whatever the virtual counts are.
    let ws = Whitespace { typed: vec![], virtual_newlines: 2, virtual_spaces: 10 };
    assert_eq!(ws.get_num_cursor_positions(), 1);
}

#[test]
fn test_num_cursor_positions_mixed() {
    let ws = Whitespace { typed: vec![Space, Space], virtual_newlines: 0, virtual_spaces: 5 };
    assert_eq!(ws.get_num_cursor_positions(), 3);

    let ws = Whitespace { typed: vec![Space, Newline, Space], virtual_newlines: 2, virtual_spaces: 0 };
    assert_eq!(ws.get_num_cursor_positions(), 4);
}

#[test]
fn test_backspace() {
    let mut content = Content::from_string("a \n  def");
    content.cursor_right();
    content.cursor_right();
    content.backspace();
    assert_eq!(&content.get_string(), "a\n  def");
}

#[test]
fn test_delete_typed_whitespace() {
    let mut content = Content::from_string("a\n\n def");
    content.cursor_right();
    content.delete();
    assert_eq!(&content.get_string(), "a\n def");
    content.delete();
    assert_eq!(&content.get_string(), "a def");
    content.delete();
    assert_eq!(&content.get_string(), "adef");
}

#[test]
fn test_delete_character() {
    let mut content = Content::from_string(" adef");
    content.cursor_right();
    content.delete();
    assert_eq!(&content.get_string(), " def");
    content.cursor_right();
    content.delete();
    assert_eq!(&content.get_string(), " df");
}

#[test]
fn test_delete_virtual_whitespace() {
    let mut content = Content::from_string("a5");
    content.update_virtual_whitespace_2("a\n  5");
    content.cursor_right();
    content.delete(); // crosses into the virtual run without deleting a character
    assert_eq!(&content.get_string(), "a\n  5");
    content.delete(); // deletes "5"
    assert_eq!(&content.get_string(), "a\n  ");
}
