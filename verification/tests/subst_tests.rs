use zip_localizer::subst::{localize_text, substitute};

#[test]
fn phrase_is_localized() {
    assert_eq!(localize_text("Далее").unwrap(), "Далі");
}

#[test]
fn branding_is_removed_and_link_replaced() {
    let out = localize_text("Powered by Online Test Pad http://onlinetestpad.com").unwrap();
    assert_eq!(out, "  https://www.youtube.com/watch?v=dQw4w9WgXcQ");
}

#[test]
fn several_phrases_in_one_text() {
    let out = localize_text("Далее из Завершить").unwrap();
    assert_eq!(out, "Далі з Закінчити");
}

#[test]
fn unrelated_text_is_untouched() {
    assert_eq!(localize_text("nothing to change here").unwrap(), "nothing to change here");
}

#[test]
fn earlier_pattern_wins_at_same_position() {
    let pats = vec!["ab".to_string(), "abc".to_string()];
    let reps = vec!["X".to_string(), "Y".to_string()];
    assert_eq!(substitute(&pats, &reps, "abcd").unwrap(), "Xcd");
}

#[test]
fn replaced_text_is_not_rescanned() {
    // The replacement of `из` is `з`; the text left of it ends in `и`,
    // so a sequential second pass would see a fresh `из`. The one-pass
    // scan must not.
    assert_eq!(localize_text("ииз").unwrap(), "из");
}
