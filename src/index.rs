//! The digest index: which stored file holds which content.

use vstd::prelude::*;

use crate::text::{join_with_slash, last_segment, segment_after_last};

verus! {

/// A stored file and the identity of its content.
pub struct DigestEntry {
    pub path: String,
    pub digest: String,
}

/// Maps the path of each stored file to the identity of its content.
///
/// The index itself takes no lock: its owner serialises access to it, so that a
/// check and the insertion that follows it happen as one step.
pub struct DigestIndex {
    entries: Vec<DigestEntry>,
    model: Ghost<Map<Seq<char>, Seq<char>>>,
}

/// Whether some stored file has content `digest`.
pub open spec fn holds_digest(m: Map<Seq<char>, Seq<char>>, digest: Seq<char>) -> bool {
    exists|p: Seq<char>| #[trigger] m.contains_key(p) && m[p] == digest
}

/// The stored files whose content is `digest`.
pub open spec fn holders(m: Map<Seq<char>, Seq<char>>, digest: Seq<char>) -> Set<Seq<char>> {
    m.dom().filter(|p: Seq<char>| m[p] == digest)
}

/// Whether no two stored files have the same content.
pub open spec fn digests_distinct(m: Map<Seq<char>, Seq<char>>) -> bool {
    forall|p: Seq<char>, q: Seq<char>|
        #[trigger] m.contains_key(p) && #[trigger] m.contains_key(q) && m[p] == m[q] ==> p == q
}

/// The dedup decision for a newly stored file: it is kept and indexed unless some
/// stored file already has its content. Yields the new index and whether it was kept.
pub open spec fn admission(m: Map<Seq<char>, Seq<char>>, path: Seq<char>, digest: Seq<char>) -> (
    Map<Seq<char>, Seq<char>>,
    bool,
) {
    if holds_digest(m, digest) {
        (m, false)
    } else {
        (m.insert(path, digest), true)
    }
}

/// The index key of an image stored under `directory`: `<directory>/<last part of name>`.
pub open spec fn image_key(directory: Seq<char>, filename: Seq<char>) -> Seq<char> {
    directory + seq!['/'] + last_segment(filename, '/')
}

/// A request to delete `filename` from `directory`, where `removed` says whether the
/// file was deleted from disk: only then is its entry forgotten. Yields the new index
/// and the reply.
pub open spec fn deletion(
    m: Map<Seq<char>, Seq<char>>,
    directory: Seq<char>,
    filename: Seq<char>,
    removed: bool,
) -> (Map<Seq<char>, Seq<char>>, DeleteOutcome) {
    if removed {
        (m.remove(image_key(directory, filename)), DeleteOutcome::Deleted)
    } else {
        (m, DeleteOutcome::NotFound)
    }
}

/// The reply to a request to delete an image.
#[derive(Clone, Copy, PartialEq, Eq, Structural, Debug)]
pub enum DeleteOutcome {
    Deleted,
    NotFound,
}

/// The index key of an image stored under `directory`.
pub fn image_key_for(directory: &str, filename: &str) -> (key: String)
    ensures
        key@ == image_key(directory@, filename@),
{
    join_with_slash(directory, segment_after_last(filename, '/'))
}

impl View for DigestIndex {
    type V = Map<Seq<char>, Seq<char>>;

    closed spec fn view(&self) -> Map<Seq<char>, Seq<char>> {
        self.model@
    }
}

impl DigestIndex {
    /// The entries hold each path once and say exactly what the model says.
    pub closed spec fn wf(&self) -> bool {
        &&& forall|i: int, j: int|
            0 <= i < j < self.entries@.len() ==> self.entries@[i].path@ != self.entries@[j].path@
        &&& forall|i: int|
            0 <= i < self.entries@.len() ==> #[trigger] self.model@.contains_key(
                self.entries@[i].path@,
            ) && self.model@[self.entries@[i].path@] == self.entries@[i].digest@
        &&& forall|p: Seq<char>|
            #[trigger] self.model@.contains_key(p) ==> exists|i: int|
                0 <= i < self.entries@.len() && self.entries@[i].path@ == p
    }

    pub fn new() -> (index: DigestIndex)
        ensures
            index.wf(),
            index@ == Map::<Seq<char>, Seq<char>>::empty(),
    {
        DigestIndex { entries: Vec::new(), model: Ghost(Map::empty()) }
    }

    /// The number of stored files.
    pub fn len(&self) -> (n: usize)
        requires
            self.wf(),
        ensures
            n == self@.len(),
    {
        proof {
            self.lemma_dom_is_paths();
        }
        self.entries.len()
    }

    proof fn lemma_dom_is_paths(&self)
        requires
            self.wf(),
        ensures
            self@.dom().finite(),
            self@.len() == self.entries@.len(),
        decreases self.entries@.len(),
    {
        let paths = self.entries@.map_values(|e: DigestEntry| e.path@);
        assert forall|p: Seq<char>| self@.dom().contains(p) <==> paths.to_set().contains(p) by {
            if self@.dom().contains(p) {
                let i = choose|i: int| 0 <= i < self.entries@.len() && self.entries@[i].path@ == p;
                assert(paths[i] == p);
            }
            if paths.contains(p) {
                let i = choose|i: int| 0 <= i < paths.len() && paths[i] == p;
                assert(self.model@.contains_key(self.entries@[i].path@));
            }
        }
        assert(self@.dom() =~= paths.to_set());
        assert(paths.no_duplicates()) by {
            assert forall|i: int, j: int|
                0 <= i < paths.len() && 0 <= j < paths.len() && i != j implies paths[i]
                != paths[j] by {
                if i < j {
                    assert(self.entries@[i].path@ != self.entries@[j].path@);
                } else {
                    assert(self.entries@[j].path@ != self.entries@[i].path@);
                }
            }
        }
        paths.unique_seq_to_set();
    }

    /// The position of `path` among the entries.
    fn position(&self, path: &String) -> (r: Option<usize>)
        requires
            self.wf(),
        ensures
            match r {
                Some(i) => i < self.entries@.len() && self.entries@[i as int].path@ == path@,
                None => !self@.contains_key(path@),
            },
    {
        let mut i: usize = 0;
        while i < self.entries.len()
            invariant
                self.wf(),
                i <= self.entries@.len(),
                forall|j: int| 0 <= j < i ==> self.entries@[j].path@ != path@,
            decreases self.entries@.len() - i,
        {
            if self.entries[i].path == *path {
                return Some(i);
            }
            i += 1;
        }
        None
    }

    /// Records that the file at `path` has content `digest`, replacing what was known of it.
    pub fn add_digest(&mut self, path: String, digest: String)
        requires
            old(self).wf(),
        ensures
            final(self).wf(),
            final(self)@ == old(self)@.insert(path@, digest@),
    {
        let ghost m = self.model@.insert(path@, digest@);
        match self.position(&path) {
            Some(i) => {
                let ghost before = self.entries@;
                self.entries.set(i, DigestEntry { path, digest });
                self.model = Ghost(m);
                assert forall|p: Seq<char>| #[trigger] self.model@.contains_key(p) implies exists|
                    k: int,
                |
                    0 <= k < self.entries@.len() && self.entries@[k].path@ == p by {
                    if p != before[i as int].path@ {
                        let k = choose|k: int| 0 <= k < before.len() && before[k].path@ == p;
                        assert(self.entries@[k].path@ == p);
                    } else {
                        assert(self.entries@[i as int].path@ == p);
                    }
                }
            },
            None => {
                let ghost before = self.entries@;
                self.entries.push(DigestEntry { path, digest });
                self.model = Ghost(m);
                assert forall|p: Seq<char>| #[trigger] self.model@.contains_key(p) implies exists|
                    k: int,
                |
                    0 <= k < self.entries@.len() && self.entries@[k].path@ == p by {
                    if p != self.entries@[before.len() as int].path@ {
                        let k = choose|k: int| 0 <= k < before.len() && before[k].path@ == p;
                        assert(self.entries@[k].path@ == p);
                    } else {
                        assert(self.entries@[before.len() as int].path@ == p);
                    }
                }
            },
        }
    }

    /// Whether some stored file has content `digest`.
    pub fn is_file_duplicate(&self, digest: &String) -> (r: bool)
        requires
            self.wf(),
        ensures
            r == holds_digest(self@, digest@),
    {
        let mut i: usize = 0;
        while i < self.entries.len()
            invariant
                self.wf(),
                i <= self.entries@.len(),
                forall|j: int| 0 <= j < i ==> self.entries@[j].digest@ != digest@,
            decreases self.entries@.len() - i,
        {
            if self.entries[i].digest == *digest {
                assert(self@.contains_key(self.entries@[i as int].path@));
                return true;
            }
            i += 1;
        }
        assert forall|p: Seq<char>| #[trigger] self@.contains_key(p) implies self@[p] != digest@ by {
            let k = choose|k: int| 0 <= k < self.entries@.len() && self.entries@[k].path@ == p;
        }
        false
    }

    /// Forgets the file at `path`; says whether the index knew it.
    pub fn remove(&mut self, path: &String) -> (known: bool)
        requires
            old(self).wf(),
        ensures
            final(self).wf(),
            final(self)@ == old(self)@.remove(path@),
            known == old(self)@.contains_key(path@),
    {
        match self.position(path) {
            Some(i) => {
                let ghost before = self.entries@;
                let ghost m = self.model@.remove(path@);
                self.entries.remove(i);
                self.model = Ghost(m);
                assert forall|k: int|
                    0 <= k < self.entries@.len() implies #[trigger] self.model@.contains_key(
                    self.entries@[k].path@,
                ) && self.model@[self.entries@[k].path@] == self.entries@[k].digest@ by {
                    if k < i {
                        assert(self.entries@[k] == before[k]);
                    } else {
                        assert(self.entries@[k] == before[k + 1]);
                    }
                }
                assert forall|p: Seq<char>| #[trigger] self.model@.contains_key(p) implies exists|
                    k: int,
                |
                    0 <= k < self.entries@.len() && self.entries@[k].path@ == p by {
                    let k = choose|k: int| 0 <= k < before.len() && before[k].path@ == p;
                    if k < i {
                        assert(self.entries@[k].path@ == p);
                    } else {
                        assert(self.entries@[k - 1].path@ == p);
                    }
                }
                true
            },
            None => {
                assert(self.model@.remove(path@) =~= self.model@);
                false
            },
        }
    }

    /// The dedup gate: keeps and indexes the newly stored file at `path` unless some
    /// stored file already has content `digest`. Returns whether it was kept; a file
    /// that was not kept is a duplicate, which its owner deletes.
    pub fn admit_upload(&mut self, path: String, digest: String) -> (kept: bool)
        requires
            old(self).wf(),
        ensures
            final(self).wf(),
            (final(self)@, kept) == admission(old(self)@, path@, digest@),
    {
        if self.is_file_duplicate(&digest) {
            false
        } else {
            self.add_digest(path, digest);
            true
        }
    }

    /// Concludes a request to delete `filename` from `directory`: `removed` says whether
    /// the file was deleted from disk. Only then is its entry forgotten.
    pub fn record_deletion(&mut self, directory: &str, filename: &str, removed: bool) -> (r:
        DeleteOutcome)
        requires
            old(self).wf(),
        ensures
            final(self).wf(),
            (final(self)@, r) == deletion(old(self)@, directory@, filename@, removed),
    {
        if removed {
            let key = image_key_for(directory, filename);
            self.remove(&key);
            DeleteOutcome::Deleted
        } else {
            DeleteOutcome::NotFound
        }
    }
}

/// Deleting a file that is not on disk, whatever its name, answers not-found and
/// leaves the index as it was.
pub proof fn lemma_missing_file_deletion_keeps_index(
    m: Map<Seq<char>, Seq<char>>,
    directory: Seq<char>,
    filename: Seq<char>,
)
    ensures
        deletion(m, directory, filename, false) == (m, DeleteOutcome::NotFound),
{
}

/// The dedup gate never lets two stored files share a content.
pub proof fn lemma_admission_keeps_digests_distinct(
    m: Map<Seq<char>, Seq<char>>,
    path: Seq<char>,
    digest: Seq<char>,
)
    requires
        digests_distinct(m),
    ensures
        digests_distinct(admission(m, path, digest).0),
{
    let n = admission(m, path, digest).0;
    if !holds_digest(m, digest) {
        assert forall|p: Seq<char>, q: Seq<char>|
            #[trigger] n.contains_key(p) && #[trigger] n.contains_key(q) && n[p] == n[q] implies p
            == q by {
            if p != path && q != path {
                assert(m.contains_key(p) && m.contains_key(q));
            } else if p == path && q != path {
                assert(m.contains_key(q) && m[q] == digest);
            } else if q == path && p != path {
                assert(m.contains_key(p) && m[p] == digest);
            }
        }
    }
}

/// Two uploads of one content, under any two paths: at most one of them is kept. When
/// no stored file had that content before, the first is kept, and afterwards exactly one
/// stored file has that content.
pub proof fn lemma_identical_uploads_keep_one(
    m: Map<Seq<char>, Seq<char>>,
    first: Seq<char>,
    second: Seq<char>,
    digest: Seq<char>,
)
    ensures
        ({
            let (m1, kept1) = admission(m, first, digest);
            let (m2, kept2) = admission(m1, second, digest);
            &&& !(kept1 && kept2)
            &&& !holds_digest(m, digest) ==> kept1 && holders(m2, digest) == set![first]
            &&& holds_digest(m, digest) ==> !kept1 && !kept2 && m2 == m
        }),
{
    let (m1, kept1) = admission(m, first, digest);
    if kept1 {
        assert(m1.contains_key(first) && m1[first] == digest);
        assert(holds_digest(m1, digest));
        assert forall|p: Seq<char>| m1.contains_key(p) && m1[p] == digest implies p == first by {
            if p != first {
                assert(m.contains_key(p) && m[p] == digest);
            }
        }
        assert(holders(m1, digest) =~= set![first]);
    }
}

} // verus!
