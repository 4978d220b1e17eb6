//! Storage directories: which to remove because no app owns them, and which
//! to copy when an app gets a new identifier.

use crate::text::{contains, str_eq, texts};
use vstd::prelude::*;

verus! {

/// One entry of a storage root.
#[derive(Debug)]
pub struct DirEntry {
    pub name: String,
    pub is_dir: bool,
}

/// A storage root as it was found: its path and its entries, or `None`
/// where the root does not exist.
#[derive(Debug)]
pub struct DirListing {
    pub root: String,
    pub entries: Option<Vec<DirEntry>>,
}

/// A directory under a storage root.
#[derive(Debug)]
pub struct DirRef {
    pub root: String,
    pub name: String,
}

/// A directory to copy under a storage root.
#[derive(Debug)]
pub struct CopyJob {
    pub root: String,
    pub from: String,
    pub to: String,
}

/// The names of the directories among `entries` that no known app owns, in
/// order.
pub open spec fn stale_names(entries: Seq<DirEntry>, app_ids: Seq<Seq<char>>) -> Seq<Seq<char>>
    decreases entries.len(),
{
    if entries.len() == 0 {
        Seq::empty()
    } else {
        let r = stale_names(entries.drop_last(), app_ids);
        let e = entries.last();
        if e.is_dir && !app_ids.contains(e.name@) {
            r.push(e.name@)
        } else {
            r
        }
    }
}

/// The names of the directories among `entries` that no known app owns.
pub fn stale_dirs(entries: &Vec<DirEntry>, app_ids: &Vec<String>) -> (out: Vec<String>)
    ensures
        texts(out@) == stale_names(entries@, texts(app_ids@)),
{
    let mut out: Vec<String> = Vec::new();
    let mut i: usize = 0;
    assert(entries@.take(0) =~= Seq::<DirEntry>::empty());
    while i < entries.len()
        invariant
            i <= entries.len(),
            texts(out@) == stale_names(entries@.take(i as int), texts(app_ids@)),
        decreases entries.len() - i,
    {
        proof {
            let t = entries@.take(i + 1);
            assert(t.drop_last() =~= entries@.take(i as int));
            assert(t.last() == entries[i as int]);
        }
        if entries[i].is_dir && !contains(app_ids, entries[i].name.as_str()) {
            let ghost before = texts(out@);
            out.push(entries[i].name.clone());
            assert(texts(out@) =~= before.push(entries[i as int].name@));
        }
        i += 1;
    }
    assert(entries@.take(entries.len() as int) =~= entries@);
    out
}

/// What a directory reference holds, as mathematical values.
pub open spec fn dir_ref_texts(v: Seq<DirRef>) -> Seq<(Seq<char>, Seq<char>)> {
    v.map_values(|d: DirRef| (d.root@, d.name@))
}

/// The root and the name of each of `names`.
pub open spec fn under_root(root: Seq<char>, names: Seq<Seq<char>>) -> Seq<(Seq<char>, Seq<char>)> {
    names.map_values(|n: Seq<char>| (root, n))
}

/// The directories to remove from the storage roots: in each root that
/// exists, those that no known app owns. Roots and entries keep their order.
pub open spec fn stale_refs(roots: Seq<DirListing>, app_ids: Seq<Seq<char>>) -> Seq<
    (Seq<char>, Seq<char>),
>
    decreases roots.len(),
{
    if roots.len() == 0 {
        Seq::empty()
    } else {
        let r = stale_refs(roots.drop_last(), app_ids);
        let last = roots.last();
        match last.entries {
            Some(entries) => r + under_root(last.root@, stale_names(entries@, app_ids)),
            None => r,
        }
    }
}

/// The directories to remove from the storage roots, given the identifiers
/// of the known apps.
pub fn clean_app_dirs(roots: &Vec<DirListing>, app_ids: &Vec<String>) -> (out: Vec<DirRef>)
    ensures
        dir_ref_texts(out@) == stale_refs(roots@, texts(app_ids@)),
{
    let mut out: Vec<DirRef> = Vec::new();
    let mut i: usize = 0;
    assert(roots@.take(0) =~= Seq::<DirListing>::empty());
    while i < roots.len()
        invariant
            i <= roots.len(),
            dir_ref_texts(out@) == stale_refs(roots@.take(i as int), texts(app_ids@)),
        decreases roots.len() - i,
    {
        proof {
            let t = roots@.take(i + 1);
            assert(t.drop_last() =~= roots@.take(i as int));
            assert(t.last() == roots[i as int]);
        }
        match &roots[i].entries {
            Some(entries) => {
                let names = stale_dirs(entries, app_ids);
                let ghost start = dir_ref_texts(out@);
                let ghost wanted = under_root(roots[i as int].root@, texts(names@));
                let mut j: usize = 0;
                assert(wanted.take(0) =~= Seq::<(Seq<char>, Seq<char>)>::empty());
                while j < names.len()
                    invariant
                        j <= names.len(),
                        i < roots.len(),
                        wanted == under_root(roots[i as int].root@, texts(names@)),
                        dir_ref_texts(out@) == start + wanted.take(j as int),
                    decreases names.len() - j,
                {
                    let ghost before = dir_ref_texts(out@);
                    out.push(DirRef { root: roots[i].root.clone(), name: names[j].clone() });
                    assert(dir_ref_texts(out@) =~= before.push(
                        (roots[i as int].root@, names[j as int]@),
                    ));
                    assert(wanted.take(j + 1) =~= wanted.take(j as int).push(wanted[j as int]));
                    j += 1;
                }
                assert(wanted.take(names.len() as int) =~= wanted);
            },
            None => {},
        }
        i += 1;
    }
    assert(roots@.take(roots.len() as int) =~= roots@);
    out
}

/// Whether `entries` hold a directory named `id`.
pub open spec fn has_dir(entries: Seq<DirEntry>, id: Seq<char>) -> bool {
    exists|i: int| 0 <= i < entries.len() && (#[trigger] entries[i]).is_dir && entries[i].name@ == id
}

/// Whether `entries` hold a directory named `id`.
pub fn has_app_dir(entries: &Vec<DirEntry>, id: &str) -> (r: bool)
    ensures
        r == has_dir(entries@, id@),
{
    let mut i: usize = 0;
    while i < entries.len()
        invariant
            i <= entries.len(),
            forall|k: int| 0 <= k < i ==> !((#[trigger] entries[k]).is_dir && entries[k].name@ == id@),
        decreases entries.len() - i,
    {
        if entries[i].is_dir && str_eq(entries[i].name.as_str(), id) {
            return true;
        }
        i += 1;
    }
    false
}

/// What a copy job holds, as mathematical values.
pub open spec fn copy_job_texts(v: Seq<CopyJob>) -> Seq<(Seq<char>, Seq<char>, Seq<char>)> {
    v.map_values(|c: CopyJob| (c.root@, c.from@, c.to@))
}

/// The copies to make when the app `old_id` becomes `new_id`: one in each
/// root that exists and holds a directory named `old_id`.
pub open spec fn copy_jobs(roots: Seq<DirListing>, old_id: Seq<char>, new_id: Seq<char>) -> Seq<
    (Seq<char>, Seq<char>, Seq<char>),
>
    decreases roots.len(),
{
    if roots.len() == 0 {
        Seq::empty()
    } else {
        let r = copy_jobs(roots.drop_last(), old_id, new_id);
        let last = roots.last();
        match last.entries {
            Some(entries) => if has_dir(entries@, old_id) {
                r.push((last.root@, old_id, new_id))
            } else {
                r
            },
            None => r,
        }
    }
}

/// The copies to make in the storage roots when the app `old_id` becomes
/// `new_id`.
pub fn copy_app_dir(roots: &Vec<DirListing>, old_id: &str, new_id: &str) -> (out: Vec<CopyJob>)
    ensures
        copy_job_texts(out@) == copy_jobs(roots@, old_id@, new_id@),
{
    let mut out: Vec<CopyJob> = Vec::new();
    let mut i: usize = 0;
    assert(roots@.take(0) =~= Seq::<DirListing>::empty());
    while i < roots.len()
        invariant
            i <= roots.len(),
            copy_job_texts(out@) == copy_jobs(roots@.take(i as int), old_id@, new_id@),
        decreases roots.len() - i,
    {
        proof {
            let t = roots@.take(i + 1);
            assert(t.drop_last() =~= roots@.take(i as int));
            assert(t.last() == roots[i as int]);
        }
        match &roots[i].entries {
            Some(entries) => {
                if has_app_dir(entries, old_id) {
                    let ghost before = copy_job_texts(out@);
                    out.push(
                        CopyJob {
                            root: roots[i].root.clone(),
                            from: old_id.to_owned(),
                            to: new_id.to_owned(),
                        },
                    );
                    assert(copy_job_texts(out@) =~= before.push(
                        (roots[i as int].root@, old_id@, new_id@),
                    ));
                }
            },
            None => {},
        }
        i += 1;
    }
    assert(roots@.take(roots.len() as int) =~= roots@);
    out
}

/// A directory is to be removed exactly when it is a directory of some root
/// and no known app owns it: the directories of known apps stay.
pub proof fn lemma_stale_names(entries: Seq<DirEntry>, app_ids: Seq<Seq<char>>, name: Seq<char>)
    ensures
        stale_names(entries, app_ids).contains(name) <==> has_dir(entries, name)
            && !app_ids.contains(name),
    decreases entries.len(),
{
    if entries.len() > 0 {
        let rest = entries.drop_last();
        let e = entries.last();
        lemma_stale_names(rest, app_ids, name);
        let r = stale_names(rest, app_ids);
        if has_dir(rest, name) {
            let i = choose|i: int| 0 <= i < rest.len() && (#[trigger] rest[i]).is_dir && rest[i].name@
                == name;
            assert(entries[i] == rest[i]);
        }
        if has_dir(entries, name) {
            let i = choose|i: int|
                0 <= i < entries.len() && (#[trigger] entries[i]).is_dir && entries[i].name@
                    == name;
            if i < rest.len() {
                assert(rest[i] == entries[i]);
            }
        }
        if e.is_dir && !app_ids.contains(e.name@) {
            let s = r.push(e.name@);
            if s.contains(name) {
                let i = choose|i: int| 0 <= i < s.len() && s[i] == name;
                if i < r.len() {
                    assert(r[i] == name);
                }
            }
            if r.contains(name) {
                let i = choose|i: int| 0 <= i < r.len() && r[i] == name;
                assert(s[i] == name);
            }
            if e.name@ == name {
                assert(s[r.len() as int] == name);
                assert(entries[entries.len() - 1].is_dir);
            }
        }
    }
}

} // verus!
