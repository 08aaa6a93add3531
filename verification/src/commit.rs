//! Commit data as the walk sees it: an id (fixed-length hex text as bytes),
//! an ordered list of parent ids, and an in-memory store that resolves ids to
//! commits the way an object store does.

use vstd::prelude::*;

verus! {

/// Length of a commit id: the hex encoding of the content hash.
pub const COMMIT_ID_LEN: usize = 40;

/// A hex digit as it appears in a commit id (digits and either letter case).
pub open spec fn is_hex_digit(b: u8) -> bool {
    (0x30 <= b <= 0x39) || (0x41 <= b <= 0x46) || (0x61 <= b <= 0x66)
}

/// A syntactically valid commit id: exactly `COMMIT_ID_LEN` hex digits.
pub open spec fn valid_commit_id(s: Seq<u8>) -> bool {
    s.len() == COMMIT_ID_LEN && forall|i: int| 0 <= i < s.len() ==> is_hex_digit(s[i])
}

/// Decides whether `id` is a syntactically valid commit id. Resolving an id
/// against a repository presumes this check has passed.
pub fn check_commit_id(id: &Vec<u8>) -> (r: bool)
    ensures
        r == valid_commit_id(id@),
{
    if id.len() != COMMIT_ID_LEN {
        return false;
    }
    let mut i: usize = 0;
    while i < id.len()
        invariant
            i <= id@.len(),
            id@.len() == COMMIT_ID_LEN,
            forall|j: int| 0 <= j < i ==> is_hex_digit(id@[j]),
        decreases id@.len() - i,
    {
        let b: u8 = id[i];
        let digit = 0x30 <= b && b <= 0x39;
        let upper = 0x41 <= b && b <= 0x46;
        let lower = 0x61 <= b && b <= 0x66;
        if !(digit || upper || lower) {
            return false;
        }
        i = i + 1;
    }
    true
}

/// One commit as the walker reads it: its own id and its parents' ids in the
/// commit's native order.
pub struct CommitData {
    pub id: Vec<u8>,
    pub parent_ids: Vec<Vec<u8>>,
}

impl CommitData {
    /// Every id the commit carries is syntactically valid.
    pub open spec fn wf(self) -> bool {
        &&& valid_commit_id(self.id@)
        &&& forall|i: int| 0 <= i < self.parent_ids@.len() ==> valid_commit_id(self.parent_ids@[i]@)
    }

    /// The parent ids as mathematical sequences.
    pub open spec fn parent_id_seqs(self) -> Seq<Seq<u8>> {
        self.parent_ids@.map(|i: int, p: Vec<u8>| p@)
    }

    /// Decides well-formedness: every id the commit carries is checked.
    pub fn is_wf(&self) -> (r: bool)
        ensures
            r == self.wf(),
    {
        if !check_commit_id(&self.id) {
            return false;
        }
        let mut i: usize = 0;
        while i < self.parent_ids.len()
            invariant
                i <= self.parent_ids@.len(),
                forall|j: int| 0 <= j < i ==> valid_commit_id(self.parent_ids@[j]@),
            decreases self.parent_ids@.len() - i,
        {
            if !check_commit_id(&self.parent_ids[i]) {
                return false;
            }
            i = i + 1;
        }
        true
    }

    /// Builds a commit after validating every id; `None` exactly when some id
    /// is malformed.
    pub fn new(id: Vec<u8>, parent_ids: Vec<Vec<u8>>) -> (r: Option<CommitData>)
        ensures
            r is Some <==> (valid_commit_id(id@) && forall|i: int|
                0 <= i < parent_ids@.len() ==> valid_commit_id(parent_ids@[i]@)),
            r matches Some(c) ==> c.id == id && c.parent_ids == parent_ids && c.wf(),
    {
        if !check_commit_id(&id) {
            return None;
        }
        let mut i: usize = 0;
        while i < parent_ids.len()
            invariant
                i <= parent_ids@.len(),
                forall|j: int| 0 <= j < i ==> valid_commit_id(parent_ids@[j]@),
            decreases parent_ids@.len() - i,
        {
            if !check_commit_id(&parent_ids[i]) {
                return None;
            }
            i = i + 1;
        }
        Some(CommitData { id, parent_ids })
    }
}

/// An in-memory object store: commits indexed by their unique ids, as the
/// walker resolves parent ids against it.
pub struct CommitStore {
    pub commits: Vec<CommitData>,
}

impl CommitStore {
    /// Every commit is well formed and no id occurs twice.
    pub open spec fn wf(self) -> bool {
        &&& forall|i: int| 0 <= i < self.commits@.len() ==> (#[trigger] self.commits@[i]).wf()
        &&& forall|i: int, j: int|
            0 <= i < j < self.commits@.len() ==> self.commits@[i].id@ != self.commits@[j].id@
    }

    /// Some commit in the store has this id.
    pub open spec fn has_id(self, id: Seq<u8>) -> bool {
        exists|i: int| 0 <= i < self.commits@.len() && (#[trigger] self.commits@[i]).id@ == id
    }

    /// The position of the commit with this id; meaningful only when the
    /// store is well formed and holds the id, and then unique.
    pub open spec fn index_of(self, id: Seq<u8>) -> int {
        choose|i: int| 0 <= i < self.commits@.len() && (#[trigger] self.commits@[i]).id@ == id
    }

    /// The commit this id resolves to.
    pub open spec fn resolve(self, id: Seq<u8>) -> CommitData {
        self.commits@[self.index_of(id)]
    }

    /// The parent ids of the commit this id resolves to.
    pub open spec fn parents_of(self, id: Seq<u8>) -> Seq<Seq<u8>> {
        self.resolve(id).parent_id_seqs()
    }

    /// In a well-formed store, a commit's position is the one `index_of` its
    /// id picks.
    pub proof fn lemma_index_of(self, i: int)
        requires
            self.wf(),
            0 <= i < self.commits@.len(),
        ensures
            self.has_id(self.commits@[i].id@),
            self.index_of(self.commits@[i].id@) == i,
    {
        let id = self.commits@[i].id@;
        assert(self.has_id(id));
        let j = self.index_of(id);
        if i < j {
            assert(self.commits@[i].id@ != self.commits@[j].id@);
        } else if j < i {
            assert(self.commits@[j].id@ != self.commits@[i].id@);
        }
    }

    /// An empty store.
    pub fn new() -> (r: CommitStore)
        ensures
            r.wf(),
            r.commits@.len() == 0,
    {
        CommitStore { commits: Vec::new() }
    }

    /// Adds a commit unless its id is already present or some id it carries
    /// is malformed; reports whether it was added, and leaves the store
    /// unchanged when it was not.
    pub fn insert(&mut self, c: CommitData) -> (added: bool)
        requires
            old(self).wf(),
        ensures
            final(self).wf(),
            added <==> (c.wf() && !old(self).has_id(c.id@)),
            added ==> final(self).commits@ == old(self).commits@.push(c),
            !added ==> final(self).commits@ == old(self).commits@,
    {
        if !c.is_wf() {
            return false;
        }
        if self.find_index(&c.id).is_some() {
            return false;
        }
        let ghost before = self.commits@;
        self.commits.push(c);
        proof {
            assert forall|i: int, j: int|
                0 <= i < j < self.commits@.len() implies self.commits@[i].id@
                != self.commits@[j].id@ by {
                if j == self.commits@.len() - 1 {
                    assert(!CommitStore { commits: old(self).commits }.has_id(c.id@));
                    assert(before[i].id@ != c.id@);
                }
            }
        }
        true
    }

    /// Looks an id up, returning the position of its commit; `None` exactly
    /// when no commit has the id.
    pub fn find_index(&self, id: &Vec<u8>) -> (r: Option<usize>)
        requires
            self.wf(),
        ensures
            r is Some <==> self.has_id(id@),
            r matches Some(i) ==> 0 <= i < self.commits@.len() && self.commits@[i as int].id@
                == id@ && i == self.index_of(id@),
    {
        let mut i: usize = 0;
        while i < self.commits.len()
            invariant
                self.wf(),
                i <= self.commits@.len(),
                forall|j: int| 0 <= j < i ==> (#[trigger] self.commits@[j]).id@ != id@,
            decreases self.commits@.len() - i,
        {
            if self.commits[i].id == *id {
                proof {
                    assert(self.commits@[i as int].id@ =~= id@);
                    self.lemma_index_of(i as int);
                }
                return Some(i);
            }
            i = i + 1;
        }
        None
    }
}

} // verus!
