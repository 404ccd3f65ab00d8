use uimport::config::{confirms, dir_action, is_yes_answer, parse_batch_size, ConfigError, DirAction};

#[test]
fn batch_size_defaults_to_one() {
    assert_eq!(parse_batch_size(None), Ok(1));
}

#[test]
fn batch_size_reads_decimal() {
    assert_eq!(parse_batch_size(Some("2")), Ok(2));
    assert_eq!(parse_batch_size(Some("+17")), Ok(17));
    assert_eq!(parse_batch_size(Some("0010")), Ok(10));
    assert_eq!(
        parse_batch_size(Some("18446744073709551615")),
        Ok(18446744073709551615)
    );
}

#[test]
fn batch_size_rejects_bad_text() {
    for s in ["", "+", "0", "-1", "abc", "1.5", " 3", "18446744073709551616", "99999999999999999999x"] {
        assert_eq!(parse_batch_size(Some(s)), Err(ConfigError::InvalidBatchSize), "{:?}", s);
    }
}

#[test]
fn dir_action_decisions() {
    assert_eq!(dir_action(true, false, None), DirAction::Keep);
    assert_eq!(dir_action(true, true, Some(false)), DirAction::Keep);
    assert_eq!(dir_action(false, true, None), DirAction::Create);
    assert_eq!(dir_action(false, false, None), DirAction::Ask);
    assert_eq!(dir_action(false, false, Some(true)), DirAction::Create);
}

#[test]
fn refused_prompt_aborts() {
    assert!(!confirms("n\n"));
    assert_eq!(dir_action(false, false, Some(confirms("n\n"))), DirAction::Abort);
}

#[test]
fn prompt_answers() {
    assert!(confirms("y\n"));
    assert!(confirms("  Y  "));
    assert!(!confirms("yes"));
    assert!(!confirms(""));
    assert!(is_yes_answer("y"));
    assert!(!is_yes_answer(" y"));
}
