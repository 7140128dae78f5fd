//! The catalog: the videos found below the library's root, keyed by id.
//!
//! Each entry is keyed by its id, and the id of an entry is always the id
//! computed from its path. The metadata that FFmpeg reports is carried
//! along as it is (type `M`); nothing here looks into it.
use vstd::prelude::*;
use crate::paths::{id_fits, path_starts_with, spec_path_starts_with, video_id, video_id_of};
use crate::text::str_equals;

verus! {

/// A modification time: seconds and nanoseconds relative to the Unix epoch.
#[derive(Clone, Copy, Debug, PartialEq, Eq, Structural)]
pub struct Stamp {
    pub secs: i64,
    pub nanos: u32,
}

/// A video of the library.
pub struct VideoEntry<M> {
    /// The id of the video: its path in unpadded URL-safe base64.
    pub id: String,
    /// The path of the file.
    pub path: String,
    /// The path relative to the root of the library.
    pub rel_path: String,
    /// The modification time of the file when it was read, if known.
    pub modified: Option<Stamp>,
    /// What FFmpeg reported of the video.
    pub meta: M,
}

/// The entry at index `i` of `s` has the id `k`.
pub open spec fn has_id<M>(s: Seq<VideoEntry<M>>, i: int, k: Seq<char>) -> bool {
    0 <= i < s.len() && s[i].id@ == k
}

/// No two entries of `s` share an id.
pub open spec fn distinct_ids<M>(s: Seq<VideoEntry<M>>) -> bool {
    forall|i: int, j: int| #[trigger] has_id(s, i, s[j].id@) && 0 <= j < s.len() ==> i == j
}

/// Each entry's id is the id of its path.
pub open spec fn ids_match_paths<M>(s: Seq<VideoEntry<M>>) -> bool {
    forall|i: int| 0 <= i < s.len() ==> (#[trigger] s[i]).id@ == video_id_of(s[i].path@)
}

/// The entries of `s` as a map from id to entry.
pub open spec fn entry_map<M>(s: Seq<VideoEntry<M>>) -> Map<Seq<char>, VideoEntry<M>> {
    Map::new(
        |k: Seq<char>| exists|i: int| has_id(s, i, k),
        |k: Seq<char>| s[choose|i: int| has_id(s, i, k)],
    )
}

/// A map of videos is keyed by id: each key is the id of its entry, and that
/// id is the id of the entry's path.
pub open spec fn keyed_by_path<M>(m: Map<Seq<char>, VideoEntry<M>>) -> bool {
    forall|k: Seq<char>| #[trigger] m.contains_key(k) ==> m[k].id@ == k && k == video_id_of(m[k].path@)
}

proof fn lemma_lookup<M>(s: Seq<VideoEntry<M>>, i: int)
    requires
        distinct_ids(s),
        0 <= i < s.len(),
    ensures
        entry_map(s).contains_key(s[i].id@),
        entry_map(s)[s[i].id@] == s[i],
{
    let k = s[i].id@;
    assert(has_id(s, i, k));
    let j = choose|j: int| has_id(s, j, k);
    assert(has_id(s, j, s[i].id@));
}

proof fn lemma_keyed<M>(s: Seq<VideoEntry<M>>)
    requires
        distinct_ids(s),
        ids_match_paths(s),
    ensures
        keyed_by_path(entry_map(s)),
{
    assert forall|k: Seq<char>| #[trigger] entry_map(s).contains_key(k) implies entry_map(s)[k].id@ == k
        && k == video_id_of(entry_map(s)[k].path@) by {
        let i = choose|i: int| has_id(s, i, k);
        lemma_lookup(s, i);
    }
}

proof fn lemma_push<M>(s: Seq<VideoEntry<M>>, e: VideoEntry<M>)
    requires
        distinct_ids(s),
        forall|i: int| 0 <= i < s.len() ==> (#[trigger] s[i]).id@ != e.id@,
    ensures
        distinct_ids(s.push(e)),
        entry_map(s.push(e)) =~= entry_map(s).insert(e.id@, e),
{
    let t = s.push(e);
    assert forall|i: int, j: int| #[trigger] has_id(t, i, t[j].id@) && 0 <= j < t.len() implies i == j by {
        if i < s.len() && j < s.len() {
            assert(has_id(s, i, s[j].id@));
        } else if i < s.len() {
            assert(s[i].id@ != e.id@);
        } else if j < s.len() {
            assert(s[j].id@ != e.id@);
        }
    }
    assert forall|k: Seq<char>| entry_map(t).contains_key(k) <==> entry_map(s).insert(e.id@, e).contains_key(k) by {
        if entry_map(s).contains_key(k) {
            let i = choose|i: int| has_id(s, i, k);
            assert(has_id(t, i, k));
        }
        if k == e.id@ {
            assert(has_id(t, s.len() as int, k));
        }
        if entry_map(t).contains_key(k) {
            let i = choose|i: int| has_id(t, i, k);
            if i < s.len() {
                assert(has_id(s, i, k));
            }
        }
    }
    assert forall|k: Seq<char>| #[trigger] entry_map(t).contains_key(k) implies entry_map(t)[k] == entry_map(s).insert(e.id@, e)[k] by {
        let i = choose|i: int| has_id(t, i, k);
        lemma_lookup(t, i);
        if i < s.len() {
            lemma_lookup(s, i);
        }
    }
}

proof fn lemma_remove<M>(s: Seq<VideoEntry<M>>, i: int)
    requires
        distinct_ids(s),
        0 <= i < s.len(),
    ensures
        distinct_ids(s.remove(i)),
        entry_map(s.remove(i)) =~= entry_map(s).remove(s[i].id@),
        forall|j: int| 0 <= j < s.remove(i).len() ==> s.contains(#[trigger] s.remove(i)[j]),
{
    let t = s.remove(i);
    let k0 = s[i].id@;
    assert forall|j: int| 0 <= j < t.len() implies s.contains(#[trigger] t[j]) by {
        if j < i {
            assert(t[j] == s[j]);
        } else {
            assert(t[j] == s[j + 1]);
        }
    }
    assert forall|a: int, b: int| #[trigger] has_id(t, a, t[b].id@) && 0 <= b < t.len() implies a == b by {
        let a2 = if a < i { a } else { a + 1 };
        let b2 = if b < i { b } else { b + 1 };
        assert(t[a] == s[a2]);
        assert(t[b] == s[b2]);
        assert(has_id(s, a2, s[b2].id@));
    }
    assert forall|k: Seq<char>| entry_map(t).contains_key(k) <==> entry_map(s).remove(k0).contains_key(k) by {
        if entry_map(t).contains_key(k) {
            let a = choose|a: int| has_id(t, a, k);
            let a2 = if a < i { a } else { a + 1 };
            assert(t[a] == s[a2]);
            assert(has_id(s, a2, k));
            if k == k0 {
                assert(has_id(s, a2, s[i].id@));
            }
        }
        if entry_map(s).remove(k0).contains_key(k) {
            let a = choose|a: int| has_id(s, a, k);
            assert(a != i);
            let a2 = if a < i { a } else { a - 1 };
            assert(t[a2] == s[a]);
            assert(has_id(t, a2, k));
        }
    }
    assert forall|k: Seq<char>| #[trigger] entry_map(t).contains_key(k) implies entry_map(t)[k] == entry_map(s).remove(k0)[k] by {
        let a = choose|a: int| has_id(t, a, k);
        let a2 = if a < i { a } else { a + 1 };
        assert(t[a] == s[a2]);
        lemma_lookup(t, a);
        lemma_lookup(s, a2);
    }
}

/// The videos of the library, keyed by id.
pub struct Catalog<M> {
    entries: Vec<VideoEntry<M>>,
}

impl<M> View for Catalog<M> {
    type V = Map<Seq<char>, VideoEntry<M>>;

    closed spec fn view(&self) -> Map<Seq<char>, VideoEntry<M>> {
        entry_map(self.entries@)
    }
}

fn position<M>(entries: &Vec<VideoEntry<M>>, id: &str) -> (res: Option<usize>)
    ensures
        match res {
            Some(i) => has_id(entries@, i as int, id@),
            None => forall|i: int| !has_id(entries@, i, id@),
        },
{
    let mut i: usize = 0;
    while i < entries.len()
        invariant
            i <= entries.len(),
            forall|j: int| 0 <= j < i ==> !has_id(entries@, j, id@),
        decreases entries.len() - i,
    {
        if str_equals(entries[i].id.as_str(), id) {
            return Some(i);
        }
        i = i + 1;
    }
    None
}

impl<M> Catalog<M> {
    #[verifier::type_invariant]
    closed spec fn well_formed(self) -> bool {
        &&& distinct_ids(self.entries@)
        &&& ids_match_paths(self.entries@)
    }

    /// An empty catalog.
    pub fn new() -> (res: Self)
        ensures
            res@ == Map::<Seq<char>, VideoEntry<M>>::empty(),
    {
        let res = Catalog { entries: Vec::new() };
        assert(res@ =~= Map::<Seq<char>, VideoEntry<M>>::empty());
        res
    }

    /// The entry with id `id`, if there is one.
    pub fn get(&self, id: &str) -> (res: Option<&VideoEntry<M>>)
        ensures
            keyed_by_path(self@),
            match res {
                Some(e) => self@.contains_key(id@) && *e == self@[id@],
                None => !self@.contains_key(id@),
            },
    {
        proof {
            use_type_invariant(self);
            lemma_keyed(self.entries@);
        }
        match position(&self.entries, id) {
            Some(i) => {
                proof {
                    lemma_lookup(self.entries@, i as int);
                }
                Some(&self.entries[i])
            },
            None => None,
        }
    }

    /// The entries, in no particular order: each is in the catalog under its
    /// id, each id of the catalog belongs to one of them, and no two of them
    /// share an id, so that each video appears once.
    pub fn entries(&self) -> (res: &Vec<VideoEntry<M>>)
        ensures
            keyed_by_path(self@),
            forall|i: int, j: int| 0 <= i < res@.len() && 0 <= j < res@.len() && i != j
                ==> (#[trigger] res@[i]).id@ != (#[trigger] res@[j]).id@,
            forall|i: int| 0 <= i < res@.len() ==> self@.contains_key((#[trigger] res@[i]).id@)
                && self@[res@[i].id@] == res@[i],
            forall|k: Seq<char>| #[trigger] self@.contains_key(k) ==> exists|i: int| 0 <= i < res@.len() && res@[i].id@ == k,
    {
        proof {
            use_type_invariant(self);
            lemma_keyed(self.entries@);
            assert forall|i: int| 0 <= i < self.entries@.len() implies self@.contains_key((#[trigger] self.entries@[i]).id@)
                && self@[self.entries@[i].id@] == self.entries@[i] by {
                lemma_lookup(self.entries@, i);
            }
            assert forall|k: Seq<char>| #[trigger] self@.contains_key(k) implies exists|i: int| 0 <= i < self.entries@.len() && self.entries@[i].id@ == k by {
                let i = choose|i: int| has_id(self.entries@, i, k);
                assert(has_id(self.entries@, i, k));
            }
            assert forall|i: int, j: int| 0 <= i < self.entries@.len() && 0 <= j < self.entries@.len() && i != j
                implies (#[trigger] self.entries@[i]).id@ != (#[trigger] self.entries@[j]).id@ by {
                if self.entries@[i].id@ == self.entries@[j].id@ {
                    assert(has_id(self.entries@, i, self.entries@[j].id@));
                }
            }
        }
        &self.entries
    }

    /// Whether the video with id `id` is in the catalog with the modification
    /// time `modified`, which is known: then it need not be read again.
    pub fn is_current(&self, id: &str, modified: Option<Stamp>) -> (res: bool)
        ensures
            res == (self@.contains_key(id@) && modified is Some && self@[id@].modified == modified),
    {
        match self.get(id) {
            Some(e) => match (e.modified, modified) {
                (Some(a), Some(b)) => a.secs == b.secs && a.nanos == b.nanos,
                _ => false,
            },
            None => false,
        }
    }

    /// Removes the entry with id `id` and returns it.
    pub fn remove(&mut self, id: &str) -> (res: Option<VideoEntry<M>>)
        ensures
            final(self)@ == old(self)@.remove(id@),
            keyed_by_path(final(self)@),
            match res {
                Some(e) => old(self)@.contains_key(id@) && e == old(self)@[id@],
                None => !old(self)@.contains_key(id@),
            },
    {
        proof {
            use_type_invariant(&*self);
        }
        let mut entries: Vec<VideoEntry<M>> = Vec::new();
        std::mem::swap(&mut entries, &mut self.entries);
        let ghost before = entries@;
        let res = match position(&entries, id) {
            Some(i) => {
                proof {
                    lemma_lookup(before, i as int);
                    lemma_remove(before, i as int);
                }
                let e = entries.remove(i);
                Some(e)
            },
            None => {
                assert(entry_map(before).remove(id@) =~= entry_map(before));
                None
            },
        };
        assert(ids_match_paths(entries@));
        proof {
            lemma_keyed(entries@);
        }
        self.entries = entries;
        res
    }

    /// Records the video at `path`, read now: its entry, under the id of
    /// `path`, replaces any entry with that id.
    pub fn record(&mut self, path: String, rel_path: String, modified: Option<Stamp>, meta: M) -> (res: String)
        requires
            id_fits(path@),
        ensures
            res@ == video_id_of(path@),
            final(self)@ == old(self)@.insert(
                res@,
                VideoEntry { id: res, path, rel_path, modified, meta },
            ),
            keyed_by_path(final(self)@),
    {
        let id = video_id(path.as_str());
        self.remove(id.as_str());
        proof {
            use_type_invariant(&*self);
        }
        assert(!entry_map(self.entries@).contains_key(id@));
        let mut entries: Vec<VideoEntry<M>> = Vec::new();
        std::mem::swap(&mut entries, &mut self.entries);
        let ghost before = entries@;
        let e = VideoEntry { id: id.clone(), path, rel_path, modified, meta };
        proof {
            assert forall|i: int| 0 <= i < before.len() implies (#[trigger] before[i]).id@ != e.id@ by {
                if before[i].id@ == e.id@ {
                    assert(has_id(before, i, id@));
                    assert(entry_map(before).contains_key(id@));
                }
            }
            lemma_push(before, e);
        }
        entries.push(e);
        assert(ids_match_paths(entries@));
        proof {
            lemma_keyed(entries@);
        }
        self.entries = entries;
        id
    }

    /// Gives the video with id `id` a new path: its entry moves to the id of
    /// `new_path`, with `new_path` and `new_rel_path`, and keeps its
    /// modification time and metadata. Returns the new id, or `None` when
    /// there is no video with id `id` (the catalog is then unchanged).
    pub fn rename(&mut self, id: &str, new_path: String, new_rel_path: String) -> (res: Option<String>)
        requires
            id_fits(new_path@),
        ensures
            keyed_by_path(final(self)@),
            match res {
                None => !old(self)@.contains_key(id@) && final(self)@ == old(self)@,
                Some(new_id) => {
                    &&& old(self)@.contains_key(id@)
                    &&& new_id@ == video_id_of(new_path@)
                    &&& final(self)@ == old(self)@.remove(id@).insert(
                        new_id@,
                        VideoEntry {
                            id: new_id,
                            path: new_path,
                            rel_path: new_rel_path,
                            modified: old(self)@[id@].modified,
                            meta: old(self)@[id@].meta,
                        },
                    )
                },
            },
    {
        match self.remove(id) {
            None => {
                assert(old(self)@.remove(id@) =~= old(self)@);
                None
            },
            Some(e) => {
                let new_id = self.record(new_path, new_rel_path, e.modified, e.meta);
                Some(new_id)
            },
        }
    }

    /// Removes every video whose path lies at or below one of the paths of
    /// `gone` (as `Path::starts_with` compares them), and tells whether any
    /// was removed. The other videos stay as they were.
    pub fn remove_under(&mut self, gone: &Vec<String>) -> (res: bool)
        ensures
            keyed_by_path(final(self)@),
            forall|k: Seq<char>| #[trigger] final(self)@.contains_key(k) <==> (old(self)@.contains_key(k)
                && !under_any(old(self)@[k].path@, gone@)),
            forall|k: Seq<char>| #[trigger] final(self)@.contains_key(k) ==> final(self)@[k] == old(self)@[k],
            res == exists|k: Seq<char>| #[trigger] old(self)@.contains_key(k) && under_any(old(self)@[k].path@, gone@),
    {
        proof {
            use_type_invariant(&*self);
        }
        let mut entries: Vec<VideoEntry<M>> = Vec::new();
        std::mem::swap(&mut entries, &mut self.entries);
        let ghost m0 = entry_map(entries@);
        let mut removed = false;
        let mut i: usize = 0;
        while i < entries.len()
            invariant
                i <= entries.len(),
                distinct_ids(entries@),
                ids_match_paths(entries@),
                forall|k: Seq<char>| #[trigger] entry_map(entries@).contains_key(k) <==> (m0.contains_key(k)
                    && (!under_any(m0[k].path@, gone@) || in_suffix(entries@, i as int, k))),
                forall|k: Seq<char>| #[trigger] entry_map(entries@).contains_key(k) ==> entry_map(entries@)[k] == m0[k],
                forall|k: Seq<char>| #[trigger] entry_map(entries@).contains_key(k) ==> m0.contains_key(k),
                removed == exists|k: Seq<char>| #[trigger] m0.contains_key(k) && !entry_map(entries@).contains_key(k),
            decreases entries.len() - i,
        {
            let ghost s = entries@;
            let ghost ki = s[i as int].id@;
            proof {
                lemma_lookup(s, i as int);
            }
            if is_under_any(entries[i].path.as_str(), gone) {
                proof {
                    lemma_remove(s, i as int);
                    let t = s.remove(i as int);
                    assert forall|k: Seq<char>| k != ki && #[trigger] in_suffix(s, i as int, k) implies in_suffix(t, i as int, k) by {
                        let j = choose|j: int| i <= j < s.len() && s[j].id@ == k;
                        assert(j != i);
                        assert(t[j - 1] == s[j]);
                    }
                    assert forall|k: Seq<char>| #[trigger] in_suffix(t, i as int, k) implies in_suffix(s, i as int, k) && k != ki by {
                        let j = choose|j: int| i <= j < t.len() && t[j].id@ == k;
                        assert(t[j] == s[j + 1]);
                        if k == ki {
                            assert(has_id(s, i as int, s[j + 1].id@));
                        }
                    }
                    assert(ids_match_paths(t)) by {
                        assert forall|j: int| 0 <= j < t.len() implies (#[trigger] t[j]).id@ == video_id_of(t[j].path@) by {
                            assert(s.contains(t[j]));
                        }
                    }
                    assert(m0.contains_key(ki) && !entry_map(t).contains_key(ki));
                }
                entries.remove(i);
                removed = true;
            } else {
                proof {
                    assert forall|k: Seq<char>| k != ki && #[trigger] in_suffix(s, i as int, k) implies in_suffix(s, i + 1, k) by {
                        let j = choose|j: int| i <= j < s.len() && s[j].id@ == k;
                        assert(j != i);
                    }
                    assert forall|k: Seq<char>| #[trigger] in_suffix(s, i + 1, k) implies in_suffix(s, i as int, k) by {
                        let j = choose|j: int| i + 1 <= j < s.len() && s[j].id@ == k;
                        assert(i <= j);
                    }
                }
                i = i + 1;
            }
        }
        proof {
            assert forall|k: Seq<char>| !in_suffix(entries@, i as int, k) by {}
            lemma_keyed(entries@);
        }
        self.entries = entries;
        removed
    }
}

/// `path` lies at or below one of the paths in `gone`.
pub open spec fn under_any(path: Seq<char>, gone: Seq<String>) -> bool {
    exists|j: int| 0 <= j < gone.len() && spec_path_starts_with(path, #[trigger] gone[j]@)
}

/// Some entry of `s` from index `i` on has the id `k`.
pub open spec fn in_suffix<M>(s: Seq<VideoEntry<M>>, i: int, k: Seq<char>) -> bool {
    exists|j: int| i <= j < s.len() && s[j].id@ == k
}

/// Whether `path` lies at or below one of the paths in `gone`.
pub fn is_under_any(path: &str, gone: &Vec<String>) -> (res: bool)
    ensures
        res == under_any(path@, gone@),
{
    let mut j: usize = 0;
    while j < gone.len()
        invariant
            j <= gone.len(),
            forall|i: int| 0 <= i < j ==> !spec_path_starts_with(path@, #[trigger] gone@[i]@),
        decreases gone.len() - j,
    {
        if path_starts_with(path, gone[j].as_str()) {
            return true;
        }
        j = j + 1;
    }
    false
}

} // verus!
