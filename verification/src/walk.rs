//! The history walk: choosing a direction from the signed step count,
//! deciding one backward hop at a time, and the whole backward walk over an
//! in-memory commit store.

use vstd::prelude::*;
use crate::commit::CommitData;
use crate::commit::CommitStore;

verus! {

/// Why a backward walk stopped short of its target.
#[derive(Clone, Copy, PartialEq, Eq, Structural, Debug)]
pub enum WalkError {
    /// A commit in the path has no parents: the walk ran off the root.
    NoParent,
    /// A commit in the path has more than one parent: the linear-history
    /// assumption is violated, and no parent is ever chosen heuristically.
    AmbiguousParent,
    /// A parent id did not resolve to a commit in the store.
    ObjectNotFound,
}

impl WalkError {
    /// A human-readable description of the failure.
    pub fn describe(&self) -> (s: &'static str)
        ensures
            *self == WalkError::NoParent ==> s@ == "A commit in the path has no parents"@,
            *self == WalkError::AmbiguousParent ==> s@ == "A commit in the path has multiple parents"@,
            *self == WalkError::ObjectNotFound ==> s@ == "Failed to find commit"@,
    {
        match self {
            WalkError::NoParent => "A commit in the path has no parents",
            WalkError::AmbiguousParent => "A commit in the path has multiple parents",
            WalkError::ObjectNotFound => "Failed to find commit",
        }
    }
}

/// The walk a signed step count asks for.
#[derive(Clone, Copy, PartialEq, Eq, Structural, Debug)]
pub enum MovePlan {
    /// Walk backward this many first-parent hops, then check out the result.
    /// A count of zero still checks out: the current commit itself.
    Backward { steps: u32 },
    /// Walk forward toward descendants: recognized, but the traversal is a
    /// deliberate stub that performs no movement and no checkout.
    Forward { steps: u32 },
}

/// Chooses the walk direction from the signed step count: negative counts
/// walk backward by the absolute value, zero walks backward zero hops (a
/// checkout of the current commit), positive counts select the forward stub.
pub fn plan_move(n: i32) -> (p: MovePlan)
    ensures
        n <= 0 ==> (p matches MovePlan::Backward { steps } && steps == -(n as int)),
        n > 0 ==> (p matches MovePlan::Forward { steps } && steps == n as int),
{
    if n > 0 {
        MovePlan::Forward { steps: n as u32 }
    } else {
        let wide: i64 = n as i64;
        let steps: u32 = (-wide) as u32;
        MovePlan::Backward { steps }
    }
}

/// What one backward hop asks the surrounding program to do. The walk hands
/// out one decision at a time; whoever drives it resolves parent ids against
/// the repository and feeds the next commit back in.
pub enum WalkDecision {
    /// The walk is complete: check this commit id out.
    Checkout { target: Vec<u8> },
    /// Resolve this parent id to its commit and continue with one step fewer.
    Resolve { parent: Vec<u8> },
    /// The walk failed; nothing may be checked out.
    Fail { error: WalkError },
}

/// Decides one hop of the backward walk: with no steps left the current
/// commit is checked out; otherwise the current commit must have exactly one
/// parent, which is resolved next, and zero or several parents end the walk
/// with the matching failure.
pub fn walk_step(remaining: u32, current: &CommitData) -> (d: WalkDecision)
    ensures
        remaining == 0 ==> (d matches WalkDecision::Checkout { target } && target@
            == current.id@),
        remaining > 0 && current.parent_ids@.len() == 0 ==> d == (WalkDecision::Fail {
            error: WalkError::NoParent,
        }),
        remaining > 0 && current.parent_ids@.len() > 1 ==> d == (WalkDecision::Fail {
            error: WalkError::AmbiguousParent,
        }),
        remaining > 0 && current.parent_ids@.len() == 1 ==> (d matches WalkDecision::Resolve {
            parent,
        } && parent@ == current.parent_ids@[0]@),
{
    if remaining == 0 {
        return WalkDecision::Checkout { target: clone_id(&current.id) };
    }
    if current.parent_ids.len() == 0 {
        return WalkDecision::Fail { error: WalkError::NoParent };
    }
    if current.parent_ids.len() > 1 {
        return WalkDecision::Fail { error: WalkError::AmbiguousParent };
    }
    WalkDecision::Resolve { parent: clone_id(&current.parent_ids[0]) }
}

/// A copy of an id's bytes.
fn clone_id(id: &Vec<u8>) -> (r: Vec<u8>)
    ensures
        r@ == id@,
{
    let mut out: Vec<u8> = Vec::new();
    proof {
        assert(out@ =~= id@.subrange(0, 0));
    }
    let mut i: usize = 0;
    while i < id.len()
        invariant
            i <= id@.len(),
            out@ == id@.subrange(0, i as int),
        decreases id@.len() - i,
    {
        out.push(id[i]);
        proof {
            assert(out@ =~= id@.subrange(0, i + 1));
        }
        i = i + 1;
    }
    proof {
        assert(out@ =~= id@);
    }
    out
}

/// The whole backward walk as a mathematical function: from the commit `id`
/// resolves to, hop to the single parent `steps` times; a commit with no
/// parent, with several parents, or a parent id absent from the store stops
/// the walk with the matching failure.
pub open spec fn walk_spec(store: CommitStore, id: Seq<u8>, steps: nat) -> Result<Seq<u8>, WalkError>
    decreases steps,
{
    if steps == 0 {
        Ok(id)
    } else {
        let parents = store.parents_of(id);
        if parents.len() == 0 {
            Err(WalkError::NoParent)
        } else if parents.len() > 1 {
            Err(WalkError::AmbiguousParent)
        } else if !store.has_id(parents[0]) {
            Err(WalkError::ObjectNotFound)
        } else {
            walk_spec(store, parents[0], (steps - 1) as nat)
        }
    }
}

/// The ancestry from `id` is linear for `n` hops: each of the first `n`
/// commits has exactly one parent, present in the store.
pub open spec fn ancestry_linear(store: CommitStore, id: Seq<u8>, n: nat) -> bool
    decreases n,
{
    n > 0 ==> {
        &&& store.parents_of(id).len() == 1
        &&& store.has_id(store.parents_of(id)[0])
        &&& ancestry_linear(store, store.parents_of(id)[0], (n - 1) as nat)
    }
}

/// The id exactly `n` first-parent hops behind `id`; meaningful when the
/// ancestry is linear that far.
pub open spec fn nth_ancestor(store: CommitStore, id: Seq<u8>, n: nat) -> Seq<u8>
    recommends
        ancestry_linear(store, id, n),
    decreases n,
{
    if n == 0 {
        id
    } else {
        nth_ancestor(store, store.parents_of(id)[0], (n - 1) as nat)
    }
}

/// Wherever the ancestry from `id` is linear for `n` hops, walking back `n`
/// succeeds and lands exactly `n` first-parent hops behind `id`.
pub proof fn lemma_walk_back_linear(store: CommitStore, id: Seq<u8>, n: nat)
    requires
        ancestry_linear(store, id, n),
    ensures
        walk_spec(store, id, n) == Ok::<Seq<u8>, WalkError>(nth_ancestor(store, id, n)),
    decreases n,
{
    if n > 0 {
        lemma_walk_back_linear(store, store.parents_of(id)[0], (n - 1) as nat);
    }
}

/// Walking back zero steps checks out the starting commit itself.
pub proof fn lemma_walk_back_zero(store: CommitStore, id: Seq<u8>)
    ensures
        walk_spec(store, id, 0) == Ok::<Seq<u8>, WalkError>(id),
{
}

/// If the ancestry is linear for `k` hops but the commit reached then has no
/// parent, a walk of more than `k` steps fails with `NoParent` — whatever
/// lies further on — and nothing is checked out.
pub proof fn lemma_walk_back_hits_root(store: CommitStore, id: Seq<u8>, n: nat, k: nat)
    requires
        k < n,
        ancestry_linear(store, id, k),
        store.parents_of(nth_ancestor(store, id, k)).len() == 0,
    ensures
        walk_spec(store, id, n) == Err::<Seq<u8>, WalkError>(WalkError::NoParent),
    decreases k,
{
    if k > 0 {
        lemma_walk_back_hits_root(store, store.parents_of(id)[0], (n - 1) as nat, (k - 1) as nat);
    }
}

/// If the ancestry is linear for `k` hops but the commit reached then is a
/// merge (more than one parent), a walk of more than `k` steps fails with
/// `AmbiguousParent` — no parent is ever chosen heuristically — and nothing
/// is checked out.
pub proof fn lemma_walk_back_hits_merge(store: CommitStore, id: Seq<u8>, n: nat, k: nat)
    requires
        k < n,
        ancestry_linear(store, id, k),
        store.parents_of(nth_ancestor(store, id, k)).len() > 1,
    ensures
        walk_spec(store, id, n) == Err::<Seq<u8>, WalkError>(WalkError::AmbiguousParent),
    decreases k,
{
    if k > 0 {
        lemma_walk_back_hits_merge(store, store.parents_of(id)[0], (n - 1) as nat, (k - 1) as nat);
    }
}

/// Walks backward `steps` first-parent hops from the commit `start_id`
/// resolves to, returning the id to check out; the result is exactly what
/// `walk_spec` says, error for error.
pub fn walk_back(store: &CommitStore, start_id: &Vec<u8>, steps: u32) -> (r: Result<
    Vec<u8>,
    WalkError,
>)
    requires
        store.wf(),
        store.has_id(start_id@),
    ensures
        r matches Ok(id) ==> walk_spec(*store, start_id@, steps as nat) == Ok::<
            Seq<u8>,
            WalkError,
        >(id@),
        r matches Err(e) ==> walk_spec(*store, start_id@, steps as nat) == Err::<
            Seq<u8>,
            WalkError,
        >(e),
{
    let mut idx: usize = match store.find_index(start_id) {
        Some(i) => i,
        None => {
            return Err(WalkError::ObjectNotFound);
        },
    };
    let mut k: u32 = 0;
    while k < steps
        invariant
            store.wf(),
            k <= steps,
            0 <= idx < store.commits@.len(),
            walk_spec(*store, start_id@, steps as nat) == walk_spec(
                *store,
                store.commits@[idx as int].id@,
                (steps - k) as nat,
            ),
        decreases steps - k,
    {
        let current = &store.commits[idx];
        let ghost cur_id = current.id@;
        proof {
            store.lemma_index_of(idx as int);
            assert(store.parents_of(cur_id) =~= current.parent_id_seqs());
        }
        if current.parent_ids.len() == 0 {
            return Err(WalkError::NoParent);
        }
        if current.parent_ids.len() > 1 {
            return Err(WalkError::AmbiguousParent);
        }
        let parent_id = &current.parent_ids[0];
        assert(store.parents_of(cur_id)[0] == parent_id@);
        match store.find_index(parent_id) {
            Some(j) => {
                idx = j;
            },
            None => {
                return Err(WalkError::ObjectNotFound);
            },
        }
        k = k + 1;
    }
    Ok(clone_id(&store.commits[idx].id))
}

} // verus!

