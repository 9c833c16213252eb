use spaced::display::{join, lay_out, print_card, sides, split_on};

#[test]
fn body_without_a_separator_is_one_side() {
    assert_eq!(sides("only side"), vec!["only side"]);
    assert_eq!(sides(""), vec![""]);
    assert_eq!(sides("a\n---"), vec!["a\n---"]);
    assert_eq!(sides("---\nb"), vec!["---\nb"]);
}

#[test]
fn body_is_divided_at_lines_of_three_hyphens() {
    assert_eq!(sides("front\n---\nback"), vec!["front", "back"]);
    assert_eq!(sides("a\n---\nb\n---\nc\n"), vec!["a", "b", "c\n"]);
    assert_eq!(sides("\n---\n"), vec!["", ""]);
    assert_eq!(sides("a\n---\n---\nb"), vec!["a", "---\nb"]);
    assert_eq!(sides("a\n---\n\n---\nb"), vec!["a", "", "b"]);
}

#[test]
fn text_is_divided_at_every_separator_from_the_left() {
    assert_eq!(split_on("a,b,,c", ","), vec!["a", "b", "", "c"]);
    assert_eq!(split_on("aaa", "aa"), vec!["", "a"]);
    assert_eq!(split_on("abc", ""), vec!["abc"]);
    assert_eq!(split_on("\u{e9}-\u{1F600}-x", "-"), vec!["\u{e9}", "\u{1F600}", "x"]);
}

#[test]
fn sides_joined_are_the_body() {
    for body in ["", "one", "a\n---\nb", "\n---\n", "a\n---\n---\nb\n---\n", "x\n---\ny\n---\nz"] {
        let parts = sides(body);
        assert_eq!(join(&parts, parts.len(), "\n---\n"), body);
    }
}

#[test]
fn join_takes_the_first_parts() {
    let parts = vec!["a".to_string(), "b".to_string(), "c".to_string()];
    assert_eq!(join(&parts, 0, ", "), "");
    assert_eq!(join(&parts, 1, ", "), "a");
    assert_eq!(join(&parts, 2, ", "), "a, b");
    assert_eq!(join(&parts, 3, ", "), "a, b, c");
    assert_eq!(join(&parts, 9, ", "), "a, b, c");
}

#[test]
fn sides_are_shown_one_after_the_other() {
    let parts = sides("front\n---\nback\n---\nlast");
    assert_eq!(print_card(&parts, 0, 80), Some("front".to_string()));
    assert_eq!(print_card(&parts, 1, 80), Some("front\r\n---\r\nback".to_string()));
    assert_eq!(print_card(&parts, 2, 80), Some("front\r\n---\r\nback\r\n---\r\nlast".to_string()));
    assert_eq!(print_card(&parts, 7, 80), Some("front\r\n---\r\nback\r\n---\r\nlast".to_string()));
}

#[test]
fn comments_are_taken_out() {
    assert_eq!(lay_out("a <!-- note -->b", 80), Some("a b".to_string()));
    assert_eq!(lay_out("a\n<!-- note -->\n\nb", 80), Some("a\r\nb".to_string()));
    assert_eq!(lay_out("a\n<!-- note -->\n\n\nb", 80), Some("a\r\n\r\nb".to_string()));
    assert_eq!(lay_out("<!-- one --><!-- two - - > -->x", 80), Some("x".to_string()));
    assert_eq!(lay_out("<!-- open", 80), Some("<!-- open".to_string()));
    let parts = sides("front <!-- hint -->\n---\nback");
    assert_eq!(print_card(&parts, 0, 80), Some("front".to_string()));
}

#[test]
fn lines_are_wrapped_to_the_width() {
    assert_eq!(
        lay_out("two words here and more\nthree", 10),
        Some("two words\r\nhere and\r\nmore\r\nthree".to_string())
    );
    assert_eq!(lay_out("short", 10), Some("short".to_string()));
    assert_eq!(lay_out("a\n\nb", 10), Some("a\r\n\r\nb".to_string()));
    assert_eq!(lay_out("abcdefghijkl", 5), Some("abcde\r\nfghij\r\nkl".to_string()));
}
