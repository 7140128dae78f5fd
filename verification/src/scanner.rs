//! Decisions of the scan of the library and of the watcher of its directory.
//!
//! Walking directories, asking the file system and running ffprobe happen
//! outside; the functions here decide which files are read and what becomes
//! of the catalog.
use vstd::prelude::*;
use crate::catalog::{keyed_by_path, Catalog, Stamp};
use crate::paths::{id_fits, is_video_file, is_video_path, relative_path, relative_path_of, video_id, video_id_of};
use crate::text::{str_equals, texts};

verus! {

/// Whether the file at `path`, with modification time `modified`, is read
/// with ffprobe: it is a video and the catalog does not already hold it with
/// that modification time.
pub fn should_probe<M>(catalog: &Catalog<M>, path: &str, modified: Option<Stamp>) -> (res: bool)
    requires
        id_fits(path@),
    ensures
        res == (is_video_path(path@) && !(catalog@.contains_key(video_id_of(path@)) && modified is Some
            && catalog@[video_id_of(path@)].modified == modified)),
{
    let id = video_id(path);
    if catalog.is_current(id.as_str(), modified) {
        return false;
    }
    is_video_file(path)
}

/// Puts what ffprobe reported of the video at `path` into the catalog:
/// `meta` is `None` when ffprobe failed or reported no duration, and the
/// catalog is then unchanged. Tells whether the catalog changed.
pub fn record_probe<M>(
    catalog: &mut Catalog<M>,
    path: &str,
    root: &str,
    modified: Option<Stamp>,
    meta: Option<M>,
) -> (res: bool)
    requires
        id_fits(path@),
    ensures
        res == meta is Some,
        keyed_by_path(final(catalog)@),
        match meta {
            None => final(catalog)@ == old(catalog)@,
            Some(m) => {
                &&& final(catalog)@.contains_key(video_id_of(path@))
                &&& final(catalog)@ == old(catalog)@.insert(
                    video_id_of(path@),
                    final(catalog)@[video_id_of(path@)],
                )
                &&& final(catalog)@[video_id_of(path@)].id@ == video_id_of(path@)
                &&& final(catalog)@[video_id_of(path@)].path@ == path@
                &&& final(catalog)@[video_id_of(path@)].rel_path@ == relative_path_of(path@, root@)
                &&& final(catalog)@[video_id_of(path@)].modified == modified
                &&& final(catalog)@[video_id_of(path@)].meta == m
            },
        },
{
    match meta {
        None => {
            // The catalog stays as it is; `entries` states that it is keyed by path.
            let _ = catalog.entries();
            false
        },
        Some(m) => {
            let rel = relative_path(path, root);
            let owned = path.to_owned();
            catalog.record(owned, rel, modified, m);
            true
        },
    }
}

/// Whether `s` holds `x`.
fn holds(s: &Vec<String>, x: &str) -> (res: bool)
    ensures
        res == exists|i: int| 0 <= i < s@.len() && (#[trigger] s@[i])@ == x@,
{
    let mut i: usize = 0;
    while i < s.len()
        invariant
            i <= s.len(),
            forall|j: int| 0 <= j < i ==> (#[trigger] s@[j])@ != x@,
        decreases s.len() - i,
    {
        if str_equals(s[i].as_str(), x) {
            return true;
        }
        i = i + 1;
    }
    false
}

/// The videos among `files`, each kept where it first occurs.
pub open spec fn candidates_of(files: Seq<String>) -> Seq<Seq<char>>
    decreases files.len(),
{
    if files.len() == 0 {
        seq![]
    } else {
        let before = candidates_of(files.drop_last());
        let f = files.last()@;
        if is_video_path(f) && !before.contains(f) {
            before.push(f)
        } else {
            before
        }
    }
}

/// The videos among `files`, each once, in the order in which they first occur.
pub fn collect_candidates(files: &Vec<String>) -> (res: Vec<String>)
    ensures
        texts(res@) == candidates_of(files@),
{
    let mut res: Vec<String> = Vec::new();
    let mut j: usize = 0;
    while j < files.len()
        invariant
            j <= files.len(),
            texts(res@) == candidates_of(files@.take(j as int)),
        decreases files.len() - j,
    {
        let f = &files[j];
        assert(files@.take(j + 1).drop_last() =~= files@.take(j as int));
        assert(files@.take(j + 1).last() == files@[j as int]);
        let known = holds(&res, f.as_str());
        proof {
            if known {
                let i = choose|i: int| 0 <= i < res@.len() && (#[trigger] res@[i])@ == f@;
                assert(texts(res@)[i] == f@);
            } else {
                assert forall|i: int| 0 <= i < texts(res@).len() implies texts(res@)[i] != f@ by {
                    assert(texts(res@)[i] == res@[i]@);
                }
            }
        }
        if is_video_file(f.as_str()) && !known {
            let ghost before = res@;
            res.push(f.clone());
            assert(texts(res@) =~= texts(before).push(f@));
        }
        j = j + 1;
    }
    assert(files@.take(j as int) =~= files@);
    res
}

} // verus!
