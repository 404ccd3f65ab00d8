use crate::index::{DuplicateIndex, Lookup};
use crate::names::{cleaned, sanitized};
use crate::paths::{comps, copy_comps, dest_dir, resolve, Destination};
use vstd::prelude::*;

verus! {

/// The full path of a destination: its directory, then its file name.
pub open spec fn dest_path(d: &Destination) -> Seq<Seq<char>> {
    comps(&d.dir).push(d.file_name@)
}

impl Destination {
    /// The destination's directory components followed by its file name.
    pub fn path(&self) -> (r: Vec<String>)
        ensures
            comps(&r) == dest_path(self),
    {
        let mut r: Vec<String> = Vec::new();
        copy_comps(&mut r, &self.dir, 0, self.dir.len());
        let ghost before = r@;
        r.push(self.file_name.clone());
        proof {
            assert(comps(&self.dir).subrange(0, self.dir@.len() as int) =~= comps(&self.dir));
            assert(r@ =~= before.push(self.file_name));
            assert(comps(&r) =~= dest_path(self));
        }
        r
    }
}

/// What to do with one source file.
pub enum Plan {
    /// A file with the same content was imported already, at this path.
    Skip(Vec<String>),
    /// Copy the file here, then register it.
    Copy(Destination),
}

/// Plans the import of one source file of `size` bytes: skipped where `same`
/// accepts a registered path of that size (the first in registration order),
/// else copied to its resolved destination.
pub fn plan_import<F: Fn(&Vec<String>) -> bool>(
    index: &DuplicateIndex,
    size: u64,
    source_file: &Vec<String>,
    source_root: &Vec<String>,
    target_root: &Vec<String>,
    include_date: bool,
    same: F,
) -> (r: Plan)
    requires
        source_file@.len() > 0,
        forall|p: &Vec<String>| same.requires((p,)),
    ensures
        match r {
            Plan::Skip(p) => exists|i: int|
                0 <= i < index.stored(size).len() && comps(&p) == index.bucket(size)[i]
                    && same.ensures((&index.stored(size)[i],), true),
            Plan::Copy(d) => {
                &&& forall|i: int|
                    0 <= i < index.stored(size).len() ==> #[trigger] same.ensures(
                        (&index.stored(size)[i],),
                        false,
                    )
                &&& !include_date ==> comps(&d.dir) == dest_dir(
                    comps(source_file),
                    comps(source_root),
                    comps(target_root),
                    None,
                )
                &&& include_date ==> exists|y: i32, m: u32|
                    1 <= m <= 12 && comps(&d.dir) == #[trigger] dest_dir(
                        comps(source_file),
                        comps(source_root),
                        comps(target_root),
                        Some((y, m)),
                    )
                &&& cleaned(comps(source_file).last()).len() > 0 ==> d.file_name@ == cleaned(
                    comps(source_file).last(),
                )
                &&& cleaned(comps(source_file).last()).len() == 0 ==> exists|stamp: Seq<char>|
                    d.file_name@ == #[trigger] sanitized(comps(source_file).last(), stamp)
            },
        },
{
    match index.find_duplicate(size, same) {
        Lookup::Duplicate(p) => Plan::Skip(p),
        Lookup::Fresh => Plan::Copy(resolve(source_file, source_root, target_root, include_date)),
    }
}

} // verus!
