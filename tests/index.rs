use std::collections::HashMap;
use uimport::index::{DuplicateIndex, Lookup};
use uimport::paths::resolve;
use uimport::pipeline::{plan_import, Plan};

fn p(s: &[&str]) -> Vec<String> {
    s.iter().map(|c| c.to_string()).collect()
}

#[test]
fn empty_index_finds_nothing() {
    let idx = DuplicateIndex::new();
    assert!(matches!(idx.find_duplicate(3, |_| true), Lookup::Fresh));
}

#[test]
fn find_duplicate_first_match_wins() {
    let mut idx = DuplicateIndex::new();
    idx.register(5, p(&["t", "a"]));
    idx.register(5, p(&["t", "b"]));
    idx.register(5, p(&["t", "c"]));
    match idx.find_duplicate(5, |q| q[1] != "a") {
        Lookup::Duplicate(q) => assert_eq!(q, p(&["t", "b"])),
        Lookup::Fresh => panic!("expected a duplicate"),
    }
}

#[test]
fn find_duplicate_only_searches_its_size() {
    let mut idx = DuplicateIndex::new();
    idx.register(5, p(&["t", "a"]));
    assert!(matches!(idx.find_duplicate(6, |_| true), Lookup::Fresh));
    assert!(matches!(idx.find_duplicate(5, |_| false), Lookup::Fresh));
}

#[test]
fn destination_path_joins_dir_and_name() {
    let d = resolve(&p(&["s", "x", "a b"]), &p(&["s"]), &p(&["t"]), false);
    assert_eq!(d.path(), p(&["t", "import", "x", "a_b"]));
}

#[test]
fn identical_files_imported_once() {
    // a.txt and sub/b.txt both hold "X"; the second is skipped.
    let mut disk: HashMap<Vec<String>, &str> = HashMap::new();
    let files = vec![(p(&["src", "a.txt"]), "X"), (p(&["src", "sub", "b.txt"]), "X")];
    let mut idx = DuplicateIndex::new();
    let mut skipped = Vec::new();
    for (f, content) in &files {
        let size = content.len() as u64;
        let plan = plan_import(&idx, size, f, &p(&["src"]), &p(&["dst"]), false, |q| {
            disk.get(q) == Some(content)
        });
        match plan {
            Plan::Skip(q) => skipped.push((f.clone(), q)),
            Plan::Copy(d) => {
                let dest = d.path();
                disk.insert(dest.clone(), content);
                idx.register(size, dest);
            }
        }
    }
    assert_eq!(disk.len(), 1);
    assert!(disk.contains_key(&p(&["dst", "import", "a.txt"])));
    assert_eq!(
        skipped,
        vec![(p(&["src", "sub", "b.txt"]), p(&["dst", "import", "a.txt"]))]
    );
}

#[test]
fn different_content_same_size_both_imported() {
    let mut idx = DuplicateIndex::new();
    let plan = plan_import(&idx, 1, &p(&["s", "a"]), &p(&["s"]), &p(&["t"]), false, |_| false);
    let Plan::Copy(d) = plan else { panic!("expected a copy") };
    idx.register(1, d.path());
    let plan = plan_import(&idx, 1, &p(&["s", "b"]), &p(&["s"]), &p(&["t"]), false, |_| false);
    match plan {
        Plan::Copy(d) => assert_eq!(d.path(), p(&["t", "import", "b"])),
        Plan::Skip(_) => panic!("expected a copy"),
    }
}
