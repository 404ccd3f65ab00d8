use uimport::paths::{resolve, resolve_at};

fn p(s: &[&str]) -> Vec<String> {
    s.iter().map(|c| c.to_string()).collect()
}

#[test]
fn resolve_undated_file_at_root() {
    let d = resolve(&p(&["src", "a.txt"]), &p(&["src"]), &p(&["dst"]), false);
    assert_eq!(d.dir, p(&["dst", "import"]));
    assert_eq!(d.file_name, "a.txt");
}

#[test]
fn resolve_keeps_parent_directories() {
    let d = resolve(
        &p(&["/", "home", "src", "sub", "deep", "my file.txt"]),
        &p(&["/", "home", "src"]),
        &p(&["/", "t"]),
        false,
    );
    assert_eq!(d.dir, p(&["/", "t", "import", "sub", "deep"]));
    assert_eq!(d.file_name, "my_file.txt");
}

#[test]
fn resolve_outside_root_uses_whole_path() {
    let d = resolve(&p(&["other", "x", "b.txt"]), &p(&["src"]), &p(&["dst"]), false);
    assert_eq!(d.dir, p(&["dst", "import", "other", "x"]));
    assert_eq!(d.file_name, "b.txt");
}

#[test]
fn resolve_at_with_date_adds_year_and_month() {
    let d = resolve_at(
        &p(&["src", "a.txt"]),
        &p(&["src"]),
        &p(&["dst"]),
        Some((2024, 5)),
        "20240501000000",
    );
    assert_eq!(d.dir, p(&["dst", "import", "2024", "5"]));
    assert_eq!(d.file_name, "a.txt");
    let d = resolve_at(
        &p(&["src", "s", "b c"]),
        &p(&["src"]),
        &p(&["dst"]),
        Some((-45, 12)),
        "0",
    );
    assert_eq!(d.dir, p(&["dst", "import", "-45", "12", "s"]));
    assert_eq!(d.file_name, "b_c");
}

#[test]
fn resolve_at_without_date_has_no_date_segments() {
    let d = resolve_at(&p(&["src", "a.txt"]), &p(&["src"]), &p(&["dst"]), None, "1");
    assert_eq!(d.dir, p(&["dst", "import"]));
    let d = resolve_at(&p(&["src", "%%"]), &p(&["src"]), &p(&["dst"]), None, "20200101000000");
    assert_eq!(d.file_name, "file_20200101000000");
}

#[test]
fn resolve_dated_uses_clock() {
    let d = resolve(&p(&["src", "a.txt"]), &p(&["src"]), &p(&["dst"]), true);
    assert_eq!(d.dir.len(), 4);
    assert_eq!(&d.dir[..2], &p(&["dst", "import"])[..]);
    let year: i32 = d.dir[2].parse().unwrap();
    let month: u32 = d.dir[3].parse().unwrap();
    assert!(year >= 2020);
    assert!((1..=12).contains(&month));
    assert_eq!(d.dir[3], month.to_string());
    assert_eq!(d.file_name, "a.txt");
}
