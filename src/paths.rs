use crate::clock::{local_year_month, push_char};
use crate::names::{clean_name, cleaned, sanitized};
use vstd::prelude::*;

verus! {

/// A path as its list of components.
pub open spec fn comps(p: &Vec<String>) -> Seq<Seq<char>> {
    p@.map_values(|c: String| c@)
}

/// The decimal digit for `d < 10`.
pub open spec fn digit_char(d: nat) -> char {
    ((48 + d) as u8) as char
}

/// The decimal text of a natural number, without leading zeros.
pub open spec fn decimal(n: nat) -> Seq<char>
    decreases n,
{
    if n < 10 {
        seq![digit_char(n)]
    } else {
        decimal(n / 10).push(digit_char(n % 10))
    }
}

/// The decimal text of an integer, with `-` before a negative one.
pub open spec fn int_text(n: int) -> Seq<char> {
    if n < 0 {
        seq!['-'] + decimal((-n) as nat)
    } else {
        decimal(n as nat)
    }
}

/// The path of `file` relative to `root`, or `file` itself when it does not
/// lie under `root`.
pub open spec fn relative_to(file: Seq<Seq<char>>, root: Seq<Seq<char>>) -> Seq<Seq<char>> {
    if root.len() <= file.len() && file.subrange(0, root.len() as int) == root {
        file.subrange(root.len() as int, file.len() as int)
    } else {
        file
    }
}

/// All but the last component (nothing for an empty path).
pub open spec fn parent_of(p: Seq<Seq<char>>) -> Seq<Seq<char>> {
    if p.len() == 0 {
        p
    } else {
        p.drop_last()
    }
}

/// The `<year>/<month>` components for a date, or none.
pub open spec fn date_part(date: Option<(i32, u32)>) -> Seq<Seq<char>> {
    match date {
        Some((y, m)) => seq![int_text(y as int), decimal(m as nat)],
        None => Seq::empty(),
    }
}

/// The destination directory: `target/import/[<year>/<month>/]<parents>`.
pub open spec fn dest_dir(
    file: Seq<Seq<char>>,
    root: Seq<Seq<char>>,
    target: Seq<Seq<char>>,
    date: Option<(i32, u32)>,
) -> Seq<Seq<char>> {
    target + seq!["import"@] + date_part(date) + parent_of(relative_to(file, root))
}

/// Where an imported file goes.
pub struct Destination {
    pub dir: Vec<String>,
    pub file_name: String,
}

fn push_decimal(s: &mut String, n: u64)
    ensures
        final(s)@ == old(s)@ + decimal(n as nat),
    decreases n,
{
    if n >= 10 {
        push_decimal(s, n / 10);
    }
    let d = (n % 10) as u8;
    let c = (48u8 + d) as char;
    push_char(s, c);
    proof {
        if n >= 10 {
            assert(decimal(n as nat) == decimal((n / 10) as nat).push(digit_char((n % 10) as nat)));
        }
        assert(old(s)@ + decimal(n as nat) =~= final(s)@);
    }
}

fn push_int(s: &mut String, n: i32)
    ensures
        final(s)@ == old(s)@ + int_text(n as int),
{
    if n < 0 {
        push_char(s, '-');
        let m: u64 = (0i64 - (n as i64)) as u64;
        push_decimal(s, m);
        assert(final(s)@ =~= old(s)@ + int_text(n as int));
    } else {
        push_decimal(s, n as u64);
    }
}

pub(crate) fn copy_comps(out: &mut Vec<String>, p: &Vec<String>, from: usize, to: usize)
    requires
        from <= to <= p@.len(),
    ensures
        comps(final(out)) == comps(old(out)) + comps(p).subrange(from as int, to as int),
{
    let ghost start = comps(out);
    let mut i: usize = from;
    while i < to
        invariant
            from <= i <= to <= p@.len(),
            comps(out) == start + comps(p).subrange(from as int, i as int),
        decreases to - i,
    {
        let ghost prev = out@;
        out.push(p[i].clone());
        assert(out@ =~= prev.push(p@[i as int]));
        assert(comps(out) =~= prev.map_values(|c: String| c@).push(p@[i as int]@));
        assert(comps(out) =~= start + comps(p).subrange(from as int, i + 1));
        i = i + 1;
    }
}

/// Whether the components of `root` begin `file`.
fn has_prefix(file: &Vec<String>, root: &Vec<String>) -> (r: bool)
    ensures
        r == (root@.len() <= file@.len() && comps(file).subrange(0, root@.len() as int)
            == comps(root)),
{
    if root.len() > file.len() {
        return false;
    }
    let mut i: usize = 0;
    while i < root.len()
        invariant
            root@.len() <= file@.len(),
            0 <= i <= root@.len(),
            forall|k: int| 0 <= k < i ==> file@[k]@ == root@[k]@,
        decreases root@.len() - i,
    {
        if file[i] != root[i] {
            assert(comps(file).subrange(0, root@.len() as int)[i as int] != comps(root)[i as int]);
            return false;
        }
        i = i + 1;
    }
    assert(comps(file).subrange(0, root@.len() as int) =~= comps(root));
    true
}

/// The destination directory for `source_file`, with the given year and month.
fn dir_at(
    source_file: &Vec<String>,
    source_root: &Vec<String>,
    target_root: &Vec<String>,
    date: Option<(i32, u32)>,
) -> (r: Vec<String>)
    ensures
        comps(&r) == dest_dir(comps(source_file), comps(source_root), comps(target_root), date),
{
    let mut dir: Vec<String> = Vec::new();
    copy_comps(&mut dir, target_root, 0, target_root.len());
    assert(comps(&dir) =~= comps(target_root)) by {
        assert(comps(target_root).subrange(0, target_root@.len() as int) =~= comps(target_root));
    }
    let import = String::from_str("import");
    let ghost d0 = dir@;
    dir.push(import);
    proof {
        reveal_strlit("import");
        assert(dir@ =~= d0.push(import));
        assert(dir@.last()@ == "import"@);
        assert(comps(&dir) =~= comps(target_root) + seq!["import"@]);
    }
    match date {
        Some((year, month)) => {
            let mut y = String::new();
            push_int(&mut y, year);
            let mut m = String::new();
            push_decimal(&mut m, month as u64);
            let ghost d1 = dir@;
            dir.push(y);
            dir.push(m);
            assert(dir@ =~= d1.push(y).push(m));
            assert(comps(&dir) =~= comps(target_root) + seq!["import"@] + date_part(date));
        },
        None => {
            assert(comps(&dir) =~= comps(target_root) + seq!["import"@] + date_part(date));
        },
    }
    let ghost before = comps(&dir);
    let n = source_file.len();
    let from: usize = if has_prefix(source_file, source_root) {
        source_root.len()
    } else {
        0
    };
    let to: usize = if n > from {
        n - 1
    } else {
        from
    };
    copy_comps(&mut dir, source_file, from, to);
    proof {
        let file = comps(source_file);
        let rel = relative_to(file, comps(source_root));
        assert(parent_of(rel) =~= file.subrange(from as int, to as int));
        assert(before =~= comps(target_root) + seq!["import"@] + date_part(date));
    }
    dir
}

/// The destination of `source_file`, with the given year and month and the
/// given time text for a name that sanitizes to nothing.
///
/// The directory is `target_root/import/[<year>/<month>/]` followed by the
/// parent components of the file's path relative to `source_root` (or of the
/// whole path, where it does not lie under `source_root`).
pub fn resolve_at(
    source_file: &Vec<String>,
    source_root: &Vec<String>,
    target_root: &Vec<String>,
    date: Option<(i32, u32)>,
    stamp: &str,
) -> (r: Destination)
    requires
        source_file@.len() > 0,
    ensures
        comps(&r.dir) == dest_dir(
            comps(source_file),
            comps(source_root),
            comps(target_root),
            date,
        ),
        r.file_name@ == sanitized(comps(source_file).last(), stamp@),
{
    let dir = dir_at(source_file, source_root, target_root, date);
    let file_name = crate::names::clean_name_at(source_file[source_file.len() - 1].as_str(), stamp);
    Destination { dir, file_name }
}

/// The destination of `source_file`, with the year and month of the local
/// clock where `include_date` is set.
pub fn resolve(
    source_file: &Vec<String>,
    source_root: &Vec<String>,
    target_root: &Vec<String>,
    include_date: bool,
) -> (r: Destination)
    requires
        source_file@.len() > 0,
    ensures
        !include_date ==> comps(&r.dir) == dest_dir(
            comps(source_file),
            comps(source_root),
            comps(target_root),
            None,
        ),
        include_date ==> exists|y: i32, m: u32|
            1 <= m <= 12 && comps(&r.dir) == #[trigger] dest_dir(
                comps(source_file),
                comps(source_root),
                comps(target_root),
                Some((y, m)),
            ),
        cleaned(comps(source_file).last()).len() > 0 ==> r.file_name@ == cleaned(
            comps(source_file).last(),
        ),
        cleaned(comps(source_file).last()).len() == 0 ==> exists|stamp: Seq<char>|
            r.file_name@ == #[trigger] sanitized(comps(source_file).last(), stamp),
{
    let date = if include_date {
        Some(local_year_month())
    } else {
        None
    };
    let dir = dir_at(source_file, source_root, target_root, date);
    let file_name = clean_name(source_file[source_file.len() - 1].as_str());
    Destination { dir, file_name }
}

/// Without a date the destination directory is the target, `import`, and the
/// file's parent components, with no year or month between; with a date the
/// year and month always follow `import`.
pub proof fn lemma_date_segments(
    file: Seq<Seq<char>>,
    root: Seq<Seq<char>>,
    target: Seq<Seq<char>>,
    year: i32,
    month: u32,
)
    ensures
        dest_dir(file, root, target, None) == target + seq!["import"@] + parent_of(
            relative_to(file, root),
        ),
        dest_dir(file, root, target, Some((year, month))).len() == target.len() + 3
            + parent_of(relative_to(file, root)).len(),
        dest_dir(file, root, target, Some((year, month)))[target.len() as int + 1] == int_text(
            year as int,
        ),
        dest_dir(file, root, target, Some((year, month)))[target.len() as int + 2] == decimal(
            month as nat,
        ),
{
    assert(date_part(None) =~= Seq::<Seq<char>>::empty());
    assert(target + seq!["import"@] + date_part(None) =~= target + seq!["import"@]);
}

} // verus!
