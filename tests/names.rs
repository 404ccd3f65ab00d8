use uimport::names::{clean_name, clean_name_at};

fn is_fallback(name: &str) -> bool {
    name.len() == 19
        && name.starts_with("file_")
        && name[5..].chars().all(|c| c.is_ascii_digit())
}

#[test]
fn clean_name_keeps_safe_names() {
    assert_eq!(clean_name("report_2024.txt"), "report_2024.txt");
}

#[test]
fn clean_name_replaces_unsafe_characters() {
    assert_eq!(clean_name("my file (1).jpg"), "my_file__1_.jpg");
    assert_eq!(clean_name("naïve-résumé.pdf"), "na_ve_r_sum_.pdf");
}

#[test]
fn clean_name_strips_outer_underscores() {
    assert_eq!(clean_name("  hello world!  "), "hello_world");
    assert_eq!(clean_name("__x__"), "x");
    assert_eq!(clean_name("-a-"), "a");
}

#[test]
fn clean_name_keeps_dots() {
    assert_eq!(clean_name("..."), "...");
    assert_eq!(clean_name(".hidden"), ".hidden");
}

#[test]
fn clean_name_empty_falls_back_to_timestamp() {
    let name = clean_name("");
    assert!(is_fallback(&name), "{}", name);
}

#[test]
fn clean_name_punctuation_falls_back_to_timestamp() {
    let name = clean_name("!!!");
    assert!(is_fallback(&name), "{}", name);
    let name = clean_name("___");
    assert!(is_fallback(&name), "{}", name);
}

#[test]
fn clean_name_at_uses_given_stamp() {
    assert_eq!(clean_name_at("", "20240102030405"), "file_20240102030405");
    assert_eq!(clean_name_at("? ?", "20240102030405"), "file_20240102030405");
    assert_eq!(clean_name_at("a b", "20240102030405"), "a_b");
}

#[test]
fn clean_name_is_idempotent() {
    for s in ["a b.c", "__Q__", "x--y", "...", "日本.txt", "ok"] {
        let once = clean_name(s);
        assert_eq!(clean_name(&once), once);
    }
}
