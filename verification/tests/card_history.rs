use spaced::algorithms::ReviewEvent;
use spaced::cards::{
    add_review, clear_history, confirmation, date_stamp, get_cards, get_cards_on, get_review_item,
    is_archived, is_card_path, mark, mark_archived, mark_on, read_review_history, remove_review,
    review_history, review_time, review_time_on, set_archived, unmark,
};
use spaced::error::{Fault, ReviewHistoryError};
use spaced::frontmatter::read_fm;
use spaced::paths::WalkedFile;
use spaced::yaml::{Metadata, Yaml};

const JAN_1_2024: i32 = 738_886;

fn file(path: &str, text: &str) -> WalkedFile {
    WalkedFile {
        path: path.to_string(),
        canonical_path: format!("/home/me/{}", path),
        text: text.to_string(),
    }
}

#[test]
fn history_is_read_oldest_first() {
    let text = "---\nreviews:\n- date: 2023-12-31\n  remembered: false\n- date: 2024-01-01\n  remembered: true\n- date: 2024-01-01\n  remembered: true\n---\n\nbody";
    assert_eq!(
        read_review_history(text).unwrap(),
        vec![
            ReviewEvent { date: JAN_1_2024 - 1, remembered: false },
            ReviewEvent { date: JAN_1_2024, remembered: true },
            ReviewEvent { date: JAN_1_2024, remembered: true },
        ]
    );
}

#[test]
fn dates_are_days_of_the_common_era() {
    let text = "---\nreviews:\n- date: 0001-01-01\n  remembered: true\n- date: 1970-01-01\n  remembered: true\n- date: 2024-02-29\n  remembered: true\n---\n";
    let history = read_review_history(text).unwrap();
    assert_eq!(history[0].date, 1);
    assert_eq!(history[1].date, 719_163);
    assert_eq!(history[2].date, JAN_1_2024 + 59);
}

#[test]
fn no_history_is_an_empty_history() {
    assert_eq!(read_review_history("body").unwrap(), Vec::new());
    assert_eq!(read_review_history("---\ntitle: x\n---\nbody").unwrap(), Vec::new());
    assert_eq!(read_review_history("---\nreviews:\n---\nbody").unwrap(), Vec::new());
    assert_eq!(read_review_history("---\nreviews: []\n---\nbody").unwrap(), Vec::new());
}

#[test]
fn history_of_the_wrong_shape_is_a_value_error() {
    let texts = [
        "---\nreviews: 3\n---\n",
        "---\nreviews: soon\n---\n",
        "---\nreviews:\n  date: 2024-01-01\n---\n",
        "---\nreviews:\n- 2024-01-01\n---\n",
        "---\nreviews:\n- remembered: true\n---\n",
        "---\nreviews:\n- date: 2024-01-01\n---\n",
        "---\nreviews:\n- date: 2024-01-01\n  remembered: 1\n---\n",
        "---\nreviews:\n- date: 20240101\n  remembered: true\n---\n",
        "---\nreviews:\n- date: [2024, 1, 1]\n  remembered: true\n---\n",
    ];
    for text in texts {
        let error = read_review_history(text).unwrap_err();
        assert!(matches!(error, ReviewHistoryError::ValueError), "{}", text);
        assert_eq!(error.kind(), Fault::Value);
        assert_eq!(error.describe(), "ValueError");
    }
}

#[test]
fn date_that_is_no_day_is_a_date_error() {
    let texts = [
        "---\nreviews:\n- date: 2024-13-01\n  remembered: true\n---\n",
        "---\nreviews:\n- date: 2023-02-29\n  remembered: true\n---\n",
        "---\nreviews:\n- date: yesterday\n  remembered: true\n---\n",
        "---\nreviews:\n- date: 2024-01-01T10:00\n  remembered: true\n---\n",
        "---\nreviews:\n- date: ''\n---\n",
    ];
    for text in texts {
        let error = read_review_history(text).unwrap_err();
        assert!(matches!(error, ReviewHistoryError::DateParseError(_)), "{}", text);
        assert_eq!(error.kind(), Fault::Date);
    }
    let error = read_review_history("---\nreviews:\n- date: yesterday\n---\n").unwrap_err();
    assert_eq!(error.describe(), "input contains invalid characters");
}

#[test]
fn the_first_bad_review_decides_the_error() {
    let text = "---\nreviews:\n- date: 2024-01-01\n  remembered: true\n- date: never\n  remembered: true\n- 7\n---\n";
    assert_eq!(read_review_history(text).unwrap_err().kind(), Fault::Date);
    let text = "---\nreviews:\n- 7\n- date: never\n  remembered: true\n---\n";
    assert_eq!(read_review_history(text).unwrap_err().kind(), Fault::Value);
}

#[test]
fn block_that_does_not_parse_is_a_frontmatter_error() {
    let error = read_review_history("---\nreviews: [\n---\n").unwrap_err();
    assert!(matches!(error, ReviewHistoryError::FrontmatterError(_)));
    assert_eq!(error.kind(), Fault::Parse);
    assert_eq!(mark_on("---\n- a\n---\n", true, JAN_1_2024).unwrap_err().kind(), Fault::Parse);
    assert_eq!(unmark("---\n- a\n---\n").unwrap_err().kind(), Fault::Parse);
    assert_eq!(mark_archived("---\n- a\n---\n", true).unwrap_err().kind(), Fault::Parse);
    assert_eq!(clear_history("---\n- a\n---\n").unwrap_err().kind(), Fault::Parse);
    assert_eq!(
        review_time_on("---\n- a\n---\n", "leitner", JAN_1_2024).unwrap_err().kind(),
        Fault::Parse
    );
}

#[test]
fn review_item_holds_date_and_flag() {
    assert_eq!(
        get_review_item("2024-01-01".to_string(), false),
        Yaml::Mapping(vec![
            (Yaml::String("date".to_string()), Yaml::String("2024-01-01".to_string())),
            (Yaml::String("remembered".to_string()), Yaml::Bool(false)),
        ])
    );
}

#[test]
fn today_is_written_as_year_month_day() {
    assert_eq!(date_stamp(JAN_1_2024), Some("2024-01-01".to_string()));
    assert_eq!(date_stamp(JAN_1_2024 + 59), Some("2024-02-29".to_string()));
    assert_eq!(date_stamp(719_163), Some("1970-01-01".to_string()));
    assert_eq!(date_stamp(i32::MAX), None);
}

#[test]
fn marking_a_file_without_metadata_gives_it_a_history() {
    assert_eq!(
        mark_on("body\n", true, JAN_1_2024).unwrap(),
        "---\nreviews:\n- date: 2024-01-01\n  remembered: true\n---\n\nbody\n"
    );
}

#[test]
fn marking_appends_to_the_history_and_keeps_the_rest() {
    let text = "---\nreviews:\n- date: 2023-12-31\n  remembered: false\ntitle: x\n---\n\nfront\n---\nback";
    let marked = mark_on(text, true, JAN_1_2024).unwrap();
    assert_eq!(
        marked,
        "---\nreviews:\n- date: 2023-12-31\n  remembered: false\n- date: 2024-01-01\n  remembered: true\ntitle: x\n---\n\nfront\n---\nback"
    );
    assert_eq!(
        read_review_history(&marked).unwrap(),
        vec![
            ReviewEvent { date: JAN_1_2024 - 1, remembered: false },
            ReviewEvent { date: JAN_1_2024, remembered: true },
        ]
    );
}

#[test]
fn marking_an_empty_history_starts_a_sequence() {
    let marked = mark_on("---\nreviews:\n---\nbody", false, JAN_1_2024).unwrap();
    assert_eq!(marked, "---\nreviews:\n- date: 2024-01-01\n  remembered: false\n---\n\nbody");
}

#[test]
fn marking_a_history_of_the_wrong_shape_is_a_value_error() {
    let error = mark_on("---\nreviews: 3\n---\nbody", true, JAN_1_2024).unwrap_err();
    assert!(matches!(error, ReviewHistoryError::ValueError));
    let error = mark_on("---\nreviews: {}\n---\nbody", true, JAN_1_2024).unwrap_err();
    assert!(matches!(error, ReviewHistoryError::ValueError));
}

#[test]
fn marking_on_a_day_outside_the_calendar_is_a_date_error() {
    let error = mark_on("body", true, i32::MAX).unwrap_err();
    assert!(matches!(error, ReviewHistoryError::DateParseError(_)));
    assert_eq!(error.kind(), Fault::Date);
}

#[test]
fn unmarking_takes_the_last_review_only() {
    let text = "---\nreviews:\n- date: 2023-12-31\n  remembered: false\n- date: 2024-01-01\n  remembered: true\ntitle: x\n---\n\nbody";
    assert_eq!(
        unmark(text).unwrap(),
        "---\nreviews:\n- date: 2023-12-31\n  remembered: false\ntitle: x\n---\n\nbody"
    );
    assert_eq!(unmark("---\nreviews: []\n---\n\nbody").unwrap(), "---\nreviews: []\n---\n\nbody");
}

#[test]
fn unmarking_undoes_marking() {
    let texts = [
        "---\nreviews:\n- date: 2023-12-31\n  remembered: false\ntitle: x\n---\n\nbody",
        "---\nreviews: []\narchived: false\n---\n\nbody\n---\nside",
    ];
    for text in texts {
        let marked = mark_on(text, true, JAN_1_2024).unwrap();
        assert_eq!(unmark(&marked).unwrap(), text);
    }
    let marked = mark_on("no metadata", false, JAN_1_2024).unwrap();
    let unmarked = unmark(&marked).unwrap();
    assert_eq!(unmarked, "---\nreviews: []\n---\n\nno metadata");
    assert_eq!(read_review_history(&unmarked).unwrap(), Vec::new());
}

#[test]
fn unmarking_without_a_history_is_a_value_error() {
    for text in ["body", "---\ntitle: x\n---\nbody", "---\nreviews:\n---\nbody", "---\nreviews: 3\n---\n"] {
        let error = unmark(text).unwrap_err();
        assert!(matches!(error, ReviewHistoryError::ValueError), "{}", text);
    }
}

#[test]
fn mark_asks_the_clock() {
    let marked = mark("body", true).unwrap();
    let history = read_review_history(&marked).unwrap();
    assert_eq!(history.len(), 1);
    assert!(history[0].remembered);
    assert!(history[0].date > JAN_1_2024);
    assert_eq!(unmark(&marked).unwrap(), "---\nreviews: []\n---\n\nbody");
}

#[test]
fn archiving_sets_the_flag_and_keeps_the_history() {
    let text = "---\nreviews:\n- date: 2024-01-01\n  remembered: true\n---\n\nq\n---\na";
    let archived = mark_archived(text, true).unwrap();
    assert_eq!(
        archived,
        "---\nreviews:\n- date: 2024-01-01\n  remembered: true\narchived: true\n---\n\nq\n---\na"
    );
    assert_eq!(read_review_history(&archived).unwrap(), read_review_history(text).unwrap());
    assert_eq!(is_archived(&read_fm(&archived).unwrap()).unwrap(), true);
    let restored = mark_archived(&archived, false).unwrap();
    assert_eq!(
        restored,
        "---\nreviews:\n- date: 2024-01-01\n  remembered: true\narchived: false\n---\n\nq\n---\na"
    );
    assert_eq!(is_archived(&read_fm(&restored).unwrap()).unwrap(), false);
}

#[test]
fn archive_flag_of_the_wrong_shape_is_a_value_error() {
    assert_eq!(is_archived(&read_fm("body").unwrap()).unwrap(), false);
    let error = is_archived(&read_fm("---\narchived: maybe\n---\n").unwrap()).unwrap_err();
    assert!(matches!(error, ReviewHistoryError::ValueError));
    let error = review_time_on("---\narchived: 1\n---\n", "leitner", JAN_1_2024).unwrap_err();
    assert!(matches!(error, ReviewHistoryError::ValueError));
}

#[test]
fn changes_to_metadata_in_place() {
    let mut metadata = Metadata::new();
    metadata.insert("title", Yaml::String("t".to_string()));
    add_review(&mut metadata, "2024-01-01".to_string(), true).unwrap();
    add_review(&mut metadata, "2024-01-02".to_string(), false).unwrap();
    assert_eq!(
        review_history(&metadata).unwrap(),
        vec![
            ReviewEvent { date: JAN_1_2024, remembered: true },
            ReviewEvent { date: JAN_1_2024 + 1, remembered: false },
        ]
    );
    assert_eq!(metadata.position("title"), Some(0));
    assert_eq!(metadata.position("reviews"), Some(1));
    remove_review(&mut metadata).unwrap();
    assert_eq!(
        review_history(&metadata).unwrap(),
        vec![ReviewEvent { date: JAN_1_2024, remembered: true }]
    );
    set_archived(&mut metadata, true);
    assert_eq!(is_archived(&metadata).unwrap(), true);
    assert_eq!(metadata.len(), 3);
    let mut broken = Metadata::new();
    broken.insert("reviews", Yaml::Bool(true));
    assert!(add_review(&mut broken, "2024-01-01".to_string(), true).is_err());
    assert!(remove_review(&mut broken).is_err());
    assert_eq!(broken.get("reviews"), Some(&Yaml::Bool(true)));
}

#[test]
fn clearing_the_history_keeps_the_other_entries() {
    let text = "---\nreviews:\n- date: 2024-01-01\n  remembered: true\ntitle: x\n---\n\nbody";
    assert_eq!(clear_history(text).unwrap(), "---\ntitle: x\n---\n\nbody");
}

#[test]
fn clearing_the_only_entry_leaves_the_body() {
    let text = "---\nreviews:\n- date: 2024-01-01\n  remembered: true\n---\n\nq\n---\na\n";
    assert_eq!(clear_history(text).unwrap(), "q\n---\na\n");
    assert_eq!(clear_history("plain").unwrap(), "plain");
    assert_eq!(clear_history("---\n---\n\nplain").unwrap(), "plain");
}

#[test]
fn under_all_every_card_is_reviewed() {
    assert!(review_time_on("---\narchived: true\n---\n", "all", JAN_1_2024).unwrap());
    assert!(review_time_on("---\nreviews: 3\n---\n", "all", JAN_1_2024).unwrap());
    assert!(review_time_on("---\n- no mapping\n---\n", "all", JAN_1_2024).unwrap());
    assert!(review_time("---\narchived: true\n---\n", "all").unwrap());
}

#[test]
fn under_leitner_a_card_is_reviewed_when_due_and_not_archived() {
    let recalled = "---\nreviews:\n- date: 2024-01-01\n  remembered: true\n---\n";
    assert!(!review_time_on(recalled, "leitner", JAN_1_2024).unwrap());
    assert!(review_time_on(recalled, "leitner", JAN_1_2024 + 1).unwrap());
    assert!(review_time(recalled, "leitner").unwrap());
    let archived = "---\nreviews:\n- date: 2024-01-01\n  remembered: true\narchived: true\n---\n";
    assert!(!review_time_on(archived, "leitner", JAN_1_2024 + 1).unwrap());
    assert!(!review_time(archived, "leitner").unwrap());
    let archived_and_broken = "---\nreviews: 3\narchived: true\n---\n";
    assert!(!review_time_on(archived_and_broken, "leitner", JAN_1_2024).unwrap());
    assert!(review_time_on("new card", "leitner", JAN_1_2024).unwrap());
}

#[test]
fn cards_are_markdown_files_below_a_cards_folder() {
    assert!(is_card_path("deck/cards/a.md", "/home/me/deck/cards/a.md"));
    assert!(is_card_path("a.markdown", "/home/me/cards/sub/a.markdown"));
    assert!(is_card_path("link.md", "/cards/target.txt"));
    assert!(!is_card_path("deck/cards/a.txt", "/home/me/deck/cards/a.txt"));
    assert!(!is_card_path("deck/cards/a.MD", "/home/me/deck/cards/a.MD"));
    assert!(!is_card_path("deck/cards/md", "/home/me/deck/cards/md"));
    assert!(!is_card_path("deck/cards/.md", "/home/me/deck/cards/.md"));
    assert!(!is_card_path("notes/a.md", "/home/me/notes/a.md"));
    assert!(!is_card_path("mycards/a.md", "/home/me/mycards/a.md"));
    assert!(!is_card_path("cards2/a.md", "/home/me/cards2/a.md"));
    assert!(!is_card_path("cards.md", "/home/me/cards.md"));
}

#[test]
fn due_cards_are_picked_in_the_order_of_the_walk() {
    let due = "---\nreviews:\n- date: 2023-12-01\n  remembered: true\n---\n\nq";
    let fresh = "---\nreviews:\n- date: 2024-01-01\n  remembered: true\n---\n\nq";
    let archived = "---\narchived: true\n---\n\nq";
    let files = vec![
        file("cards/z.md", due),
        file("cards", ""),
        file("cards/b.md", fresh),
        file("cards/c.md", archived),
        file("notes/d.md", due),
        file("cards/readme.txt", "---\n- not read\n---\n"),
        file("cards/a.markdown", "never reviewed"),
    ];
    assert_eq!(get_cards_on(&files, "leitner", JAN_1_2024).unwrap(), vec![0, 6]);
    assert_eq!(get_cards_on(&files, "leitner", JAN_1_2024 + 1).unwrap(), vec![0, 2, 6]);
    assert_eq!(get_cards_on(&files, "all", JAN_1_2024).unwrap(), vec![0, 2, 3, 6]);
    assert_eq!(get_cards(&files, "all").unwrap(), vec![0, 2, 3, 6]);
    assert_eq!(get_cards(&files, "leitner").unwrap(), vec![0, 2, 6]);
    assert_eq!(get_cards_on(&Vec::new(), "leitner", JAN_1_2024).unwrap(), Vec::<usize>::new());
}

#[test]
fn a_card_that_cannot_be_read_fails_the_scan() {
    let files = vec![
        file("cards/a.md", "fine"),
        file("cards/b.md", "---\nreviews:\n- date: someday\n  remembered: true\n---\n"),
        file("cards/c.md", "---\n- no mapping\n---\n"),
    ];
    assert_eq!(get_cards_on(&files, "leitner", JAN_1_2024).unwrap_err().kind(), Fault::Date);
    assert_eq!(get_cards_on(&files, "all", JAN_1_2024).unwrap(), vec![0, 1, 2]);
    assert_eq!(get_cards(&files, "leitner").unwrap_err().kind(), Fault::Date);
}

#[test]
fn answers_to_the_question_whether_to_go_on() {
    for yes in ["Y\n", "y\n", "YES\n", "Yes\n", "yes\n"] {
        assert_eq!(confirmation(yes), Some(true));
    }
    for no in ["\n", "N\n", "n\n", "NO\n", "No\n", "no\n"] {
        assert_eq!(confirmation(no), Some(false));
    }
    for other in ["", "y", "yES\n", "maybe\n", " y\n", "y\r\n"] {
        assert_eq!(confirmation(other), None);
    }
}
