use spaced::error::{Fault, FrontmatterError, ReviewHistoryError, ValueError};
use spaced::notes::{get_notes, is_note_path, is_spaced};
use spaced::paths::{path_has_extension, path_has_segment, WalkedFile};
use spaced::text::{chars_of, matches_at, same_text};

fn file(path: &str, text: &str) -> WalkedFile {
    WalkedFile {
        path: path.to_string(),
        canonical_path: format!("/srv/{}", path),
        text: text.to_string(),
    }
}

#[test]
fn note_is_spaced_when_its_metadata_says_so() {
    assert_eq!(is_spaced("---\nspaced: true\n---\n").unwrap(), true);
    assert_eq!(is_spaced("---\nspaced: false\n---\n").unwrap(), false);
    assert_eq!(is_spaced("---\ntitle: x\n---\n").unwrap(), false);
    assert_eq!(is_spaced("no metadata").unwrap(), false);
}

#[test]
fn spaced_flag_of_the_wrong_shape_is_a_value_error() {
    let error = is_spaced("---\nspaced: 1\n---\n").unwrap_err();
    assert!(matches!(error, FrontmatterError::ValueError(_)));
    assert_eq!(error.kind(), Fault::Value);
    assert_eq!(error.describe(), "ValueError");
    let error = is_spaced("---\nspaced: [\n---\n").unwrap_err();
    assert!(matches!(error, FrontmatterError::ParseError(_)));
}

#[test]
fn notes_are_markdown_files_below_a_notes_folder() {
    assert!(is_note_path("notes/a.md", "/srv/notes/a.md"));
    assert!(is_note_path("a.md", "/srv/notes/deep/a.md"));
    assert!(!is_note_path("notes/a.markdown", "/srv/notes/a.markdown"));
    assert!(!is_note_path("cards/a.md", "/srv/cards/a.md"));
    assert!(!is_note_path("notes", "/srv/notes"));
}

#[test]
fn notes_that_are_not_spaced_are_listed() {
    let files = vec![
        file("notes/a.md", "---\nspaced: true\n---\n"),
        file("notes/b.md", "plain"),
        file("cards/c.md", "plain"),
        file("notes/d.txt", "plain"),
        file("notes/e.md", "---\nspaced: false\n---\n"),
    ];
    assert_eq!(get_notes(&files, false).unwrap(), vec![1, 4]);
    assert_eq!(get_notes(&files, true).unwrap(), vec![0, 1, 4]);
}

#[test]
fn a_note_that_cannot_be_read_fails_the_list_unless_all_are_asked_for() {
    let files = vec![file("notes/a.md", "plain"), file("notes/b.md", "---\nspaced: no\n---\n")];
    assert_eq!(get_notes(&files, false).unwrap_err().kind(), Fault::Value);
    assert_eq!(get_notes(&files, true).unwrap(), vec![0, 1]);
}

#[test]
fn segments_stand_between_slashes() {
    assert!(path_has_segment("/a/cards/b", "cards"));
    assert!(path_has_segment("cards/b", "cards"));
    assert!(path_has_segment("/a/cards", "cards"));
    assert!(path_has_segment("cards", "cards"));
    assert!(!path_has_segment("/a/cards2/b", "cards"));
    assert!(!path_has_segment("/a/2cards/b", "cards"));
    assert!(!path_has_segment("/a/car/ds", "cards"));
    assert!(!path_has_segment("", "cards"));
    assert!(!path_has_segment("car", "cards"));
}

#[test]
fn extension_follows_the_last_dot_of_the_file_name() {
    assert!(path_has_extension("a.md", "md"));
    assert!(path_has_extension("dir/a.b.md", "md"));
    assert!(path_has_extension("dir.d/a.md", "md"));
    assert!(path_has_extension("a.", ""));
    assert!(!path_has_extension("a.b.md", "b.md"));
    assert!(!path_has_extension("dir.md/a", "md"));
    assert!(!path_has_extension(".md", "md"));
    assert!(!path_has_extension("dir/.md", "md"));
    assert!(!path_has_extension("md", "md"));
    assert!(!path_has_extension("a.mdx", "md"));
    assert!(!path_has_extension("a.md", "d"));
}

#[test]
fn texts_are_handled_by_characters() {
    assert_eq!(chars_of("a\u{e9}\u{1F600}"), vec!['a', '\u{e9}', '\u{1F600}']);
    assert!(same_text("abc", "abc"));
    assert!(!same_text("abc", "abd"));
    assert!(!same_text("abc", "ab"));
    let text = chars_of("hello");
    assert!(matches_at(&text, &chars_of("ll"), 2));
    assert!(matches_at(&text, &chars_of(""), 5));
    assert!(!matches_at(&text, &chars_of("ll"), 3));
    assert!(!matches_at(&text, &chars_of("lo"), 4));
    assert!(!matches_at(&text, &chars_of("h"), 9));
}

#[test]
fn value_error_with_and_without_a_message() {
    let bare = ValueError::new();
    assert_eq!(bare.message(), None);
    assert_eq!(bare.describe(), "ValueError");
    let told = ValueError::from("missing `~:decks` key".to_string());
    assert_eq!(told.message(), Some(&"missing `~:decks` key".to_string()));
    assert_eq!(told.describe(), "ValueError: missing `~:decks` key");
}

#[test]
fn errors_tell_their_kind_and_their_message() {
    let parse = FrontmatterError::ParseError("bad".to_string());
    assert_eq!(parse.kind(), Fault::Parse);
    assert_eq!(parse.describe(), "bad");
    let serialize = FrontmatterError::SerializeError("worse".to_string());
    assert_eq!(serialize.kind(), Fault::Serialize);
    assert_eq!(serialize.describe(), "worse");
    let value = FrontmatterError::ValueError(ValueError::from("shape".to_string()));
    assert_eq!(value.kind(), Fault::Value);
    assert_eq!(value.describe(), "ValueError: shape");
    let wrapped = ReviewHistoryError::FrontmatterError(FrontmatterError::ParseError("bad".to_string()));
    assert_eq!(wrapped.kind(), Fault::Parse);
    assert_eq!(wrapped.describe(), "bad");
    let date = ReviewHistoryError::DateParseError("input is out of range".to_string());
    assert_eq!(date.kind(), Fault::Date);
    assert_eq!(date.describe(), "input is out of range");
    assert_eq!(ReviewHistoryError::ValueError.kind(), Fault::Value);
    assert_eq!(ReviewHistoryError::ValueError.describe(), "ValueError");
}
