//! The watch registry: process-wide bookkeeping that maps a canonical root
//! path to its running watch handle, enforces at-most-one live watch per
//! path, and mediates start and stop.
//!
//! The registry holds no operating-system resource itself.  The surrounding
//! runtime canonicalizes paths, asks the directory-enumeration collaborator
//! whether the root exists and is a directory, attaches the raw event source,
//! and releases it; every decision about when those things may happen is made
//! here, against the registry's contracts.

use vstd::prelude::*;

verus! {

/// Everything a start or stop request can fail with, as synchronous values.
#[derive(Clone, Copy, Debug, PartialEq, Eq, Structural)]
pub enum WatchError {
    /// The requested root does not exist.
    PathNotFound,
    /// The requested root exists but is not a directory.
    NotADirectory,
    /// Attaching the raw event source was denied.
    PermissionDenied,
    /// The platform refused a further watch.
    WatchLimitExceeded,
    /// Stop was asked for a path that no live watch covers.
    NotWatching,
}

/// How an attempted raw-event-source attachment failed, as the surrounding
/// runtime classified it at the boundary.
#[derive(Clone, Copy, Debug, PartialEq, Eq, Structural)]
pub enum AttachFailure {
    AccessDenied,
    LimitExceeded,
    RootMissing,
}

/// The synchronous start error owed for each way an attachment can fail.
pub fn attach_failure_error(failure: AttachFailure) -> (e: WatchError)
    ensures
        failure == AttachFailure::AccessDenied ==> e == WatchError::PermissionDenied,
        failure == AttachFailure::LimitExceeded ==> e == WatchError::WatchLimitExceeded,
        failure == AttachFailure::RootMissing ==> e == WatchError::PathNotFound,
{
    match failure {
        AttachFailure::AccessDenied => WatchError::PermissionDenied,
        AttachFailure::LimitExceeded => WatchError::WatchLimitExceeded,
        AttachFailure::RootMissing => WatchError::PathNotFound,
    }
}

/// What a start request requires of the runtime.
#[derive(Clone, Copy, Debug, PartialEq, Eq, Structural)]
pub enum StartDecision {
    /// A watch for this canonical root already runs: reuse it, attach nothing.
    AlreadyWatching { id: u64 },
    /// The request is invalid; no resource is touched.
    Rejected { error: WatchError },
    /// No watch runs for this root: attach a raw event source, then confirm.
    ReadyToAttach,
}

/// One live watch: the canonical root it covers and its caller-visible id.
/// Exclusively owned by the registry entry for its path.
pub struct WatchHandle {
    pub root: String,
    pub id: u64,
}

/// The mathematical value of a registry: the live entries in insertion
/// order, and the next fresh id.
pub ghost struct RegistryView {
    pub entries: Seq<(Seq<char>, u64)>,
    pub next_id: u64,
}

/// Some entry covers `root`.
pub open spec fn contains_root(entries: Seq<(Seq<char>, u64)>, root: Seq<char>) -> bool {
    exists|i: int| 0 <= i < entries.len() && entries[i].0 == root
}

/// No two entries cover the same root.
pub open spec fn unique_roots(entries: Seq<(Seq<char>, u64)>) -> bool {
    forall|i: int, j: int|
        0 <= i < j < entries.len() ==> entries[i].0 != entries[j].0
}

/// Every live id was minted below `bound`.
pub open spec fn ids_below(entries: Seq<(Seq<char>, u64)>, bound: u64) -> bool {
    forall|i: int| 0 <= i < entries.len() ==> entries[i].1 < bound
}

/// The id of the entry covering `root` (meaningful only when one exists;
/// with unique roots it is uniquely determined).
pub open spec fn id_of(entries: Seq<(Seq<char>, u64)>, root: Seq<char>) -> u64 {
    entries[choose|i: int| 0 <= i < entries.len() && entries[i].0 == root].1
}

/// The index of the entry covering `root` (meaningful only when one exists).
pub open spec fn index_of_root(entries: Seq<(Seq<char>, u64)>, root: Seq<char>) -> int {
    choose|i: int| 0 <= i < entries.len() && entries[i].0 == root
}

impl RegistryView {
    /// At most one live watch per canonical path, and ids never reused.
    pub open spec fn wf(self) -> bool {
        unique_roots(self.entries) && ids_below(self.entries, self.next_id)
    }
}

/// What `Start` decides, given the collaborator's answers about the root:
/// validation first, then the idempotency check against the live entries.
pub open spec fn spec_plan(
    v: RegistryView,
    root: Seq<char>,
    exists_on_disk: bool,
    is_directory: bool,
) -> StartDecision {
    if !exists_on_disk {
        StartDecision::Rejected { error: WatchError::PathNotFound }
    } else if !is_directory {
        StartDecision::Rejected { error: WatchError::NotADirectory }
    } else if contains_root(v.entries, root) {
        StartDecision::AlreadyWatching { id: id_of(v.entries, root) }
    } else {
        StartDecision::ReadyToAttach
    }
}

/// The registry after a fresh watch on `root` is confirmed, and its new id.
pub open spec fn spec_confirm(v: RegistryView, root: Seq<char>) -> (RegistryView, u64) {
    (
        RegistryView {
            entries: v.entries.push((root, v.next_id)),
            next_id: (v.next_id + 1) as u64,
        },
        v.next_id,
    )
}

/// The watch registry.  Create one per process, start and stop watches
/// through it, and drain it with `stop_all` at shutdown.
pub struct WatchRegistry {
    entries: Vec<WatchHandle>,
    next_id: u64,
}

impl View for WatchRegistry {
    type V = RegistryView;

    closed spec fn view(&self) -> RegistryView {
        RegistryView {
            entries: self.entries@.map_values(|h: WatchHandle| (h.root@, h.id)),
            next_id: self.next_id,
        }
    }
}

impl WatchRegistry {
    pub open spec fn wf(self) -> bool {
        self@.wf()
    }

    /// An empty registry, as constructed once at process start.
    pub fn new() -> (r: WatchRegistry)
        ensures
            r@.entries == Seq::<(Seq<char>, u64)>::empty(),
            r@.next_id == 0,
            r.wf(),
    {
        let r = WatchRegistry { entries: Vec::new(), next_id: 0 };
        proof {
            assert(r@.entries =~= Seq::<(Seq<char>, u64)>::empty());
        }
        r
    }

    /// The index of the live entry covering `root`, if any.
    fn find_index(&self, root: &String) -> (r: Option<usize>)
        ensures
            match r {
                Option::Some(i) => i < self@.entries.len() && self@.entries[i as int].0 == root@,
                Option::None => !contains_root(self@.entries, root@),
            },
    {
        let n = self.entries.len();
        let mut i: usize = 0;
        while i < n
            invariant
                n == self@.entries.len(),
                i <= n,
                forall|j: int| 0 <= j < i ==> self@.entries[j].0 != root@,
            decreases n - i,
        {
            if self.entries[i].root.eq(root) {
                proof {
                    assert(self@.entries[i as int].0 == root@);
                }
                return Some(i);
            }
            i += 1;
        }
        None
    }

    /// Whether a live watch covers `root`.
    pub fn watched(&self, root: &String) -> (r: bool)
        ensures
            r == contains_root(self@.entries, root@),
    {
        self.find_index(root).is_some()
    }

    /// A fresh id can still be minted.
    pub fn can_mint_id(&self) -> (r: bool)
        ensures
            r == (self@.next_id < u64::MAX),
    {
        self.next_id < u64::MAX
    }

    /// How many watches are live.
    pub fn active_count(&self) -> (n: usize)
        ensures
            n == self@.entries.len(),
    {
        self.entries.len()
    }

    /// Decide a start request for the canonical `root`, given the
    /// directory-enumeration collaborator's answers.  Validation comes
    /// first; an already-watched root is answered from the registry with its
    /// existing id, and nothing is attached for it.
    pub fn plan_start(&self, root: &String, exists_on_disk: bool, is_directory: bool) -> (d:
        StartDecision)
        requires
            self.wf(),
        ensures
            d == spec_plan(self@, root@, exists_on_disk, is_directory),
    {
        if !exists_on_disk {
            StartDecision::Rejected { error: WatchError::PathNotFound }
        } else if !is_directory {
            StartDecision::Rejected { error: WatchError::NotADirectory }
        } else {
            match self.find_index(root) {
                Some(i) => {
                    let id = self.entries[i].id;
                    proof {
                        let w = index_of_root(self@.entries, root@);
                        assert(0 <= w < self@.entries.len() && self@.entries[w].0 == root@);
                        assert(w == i as int);
                    }
                    StartDecision::AlreadyWatching { id }
                },
                None => StartDecision::ReadyToAttach,
            }
        }
    }

    /// Record the fresh watch for `root` after its raw event source was
    /// attached, minting its id.  Only a root no live watch covers may be
    /// confirmed, so the at-most-one invariant is kept.
    pub fn confirm_start(&mut self, root: String) -> (id: u64)
        requires
            old(self).wf(),
            !contains_root(old(self)@.entries, root@),
            old(self)@.next_id < u64::MAX,
        ensures
            final(self).wf(),
            final(self)@ == spec_confirm(old(self)@, root@).0,
            id == spec_confirm(old(self)@, root@).1,
    {
        let id = self.next_id;
        self.next_id = self.next_id + 1;
        self.entries.push(WatchHandle { root, id });
        proof {
            assert(self@.entries =~= old(self)@.entries.push((root@, id)));
        }
        id
    }

    /// Remove the watch for `root`, handing back the id whose resources the
    /// runtime must now release.  A root no live watch covers is answered
    /// with `NotWatching` and changes nothing.
    pub fn stop(&mut self, root: &String) -> (r: Result<u64, WatchError>)
        requires
            old(self).wf(),
        ensures
            final(self).wf(),
            !contains_root(old(self)@.entries, root@) ==> r == Result::<u64, WatchError>::Err(
                WatchError::NotWatching,
            ) && final(self)@ == old(self)@,
            contains_root(old(self)@.entries, root@) ==> {
                &&& r == Result::<u64, WatchError>::Ok(id_of(old(self)@.entries, root@))
                &&& final(self)@.entries == old(self)@.entries.remove(
                    index_of_root(old(self)@.entries, root@),
                )
                &&& final(self)@.next_id == old(self)@.next_id
            },
    {
        match self.find_index(root) {
            Some(i) => {
                let handle = self.entries.remove(i);
                proof {
                    let w = index_of_root(old(self)@.entries, root@);
                    assert(0 <= w < old(self)@.entries.len() && old(self)@.entries[w].0 == root@);
                    assert(w == i as int);
                    assert(self@.entries =~= old(self)@.entries.remove(i as int));
                }
                Ok(handle.id)
            },
            None => Err(WatchError::NotWatching),
        }
    }

    /// Drain the registry at process shutdown: every live watch leaves it,
    /// and the runtime receives every id, in insertion order, to release.
    pub fn stop_all(&mut self) -> (ids: Vec<u64>)
        requires
            old(self).wf(),
        ensures
            final(self).wf(),
            final(self)@.entries == Seq::<(Seq<char>, u64)>::empty(),
            final(self)@.next_id == old(self)@.next_id,
            ids@ == old(self)@.entries.map_values(|e: (Seq<char>, u64)| e.1),
    {
        let n = self.entries.len();
        let mut ids: Vec<u64> = Vec::new();
        let mut i: usize = 0;
        while i < n
            invariant
                n == self@.entries.len(),
                i <= n,
                self@ == old(self)@,
                ids@ =~= self@.entries.take(i as int).map_values(|e: (Seq<char>, u64)| e.1),
            decreases n - i,
        {
            ids.push(self.entries[i].id);
            proof {
                assert(self@.entries.take(i + 1) =~= self@.entries.take(i as int).push(
                    self@.entries[i as int],
                ));
                assert(ids@ =~= self@.entries.take(i + 1).map_values(
                    |e: (Seq<char>, u64)| e.1,
                ));
            }
            i += 1;
        }
        self.entries.clear();
        proof {
            assert(old(self)@.entries.take(n as int) =~= old(self)@.entries);
            assert(self@.entries =~= Seq::<(Seq<char>, u64)>::empty());
        }
        ids
    }
}

/// Starting the same canonical path twice yields the same watch id and
/// exactly one attached raw event source: after a fresh start is confirmed,
/// a second start of that root is answered `AlreadyWatching` with the very
/// id just minted — never `ReadyToAttach`, so nothing further is attached
/// and the registry is not touched.
pub proof fn lemma_second_start_is_idempotent(v: RegistryView, root: Seq<char>)
    requires
        v.wf(),
        spec_plan(v, root, true, true) == StartDecision::ReadyToAttach,
        v.next_id < u64::MAX,
    ensures
        ({
            let (after, id) = spec_confirm(v, root);
            &&& after.wf()
            &&& spec_plan(after, root, true, true) == (StartDecision::AlreadyWatching { id })
        }),
{
    let (after, id) = spec_confirm(v, root);
    let n = v.entries.len() as int;
    assert(after.entries[n] == (root, v.next_id));
    assert(contains_root(after.entries, root));
    assert(!contains_root(v.entries, root));
    assert(unique_roots(after.entries)) by {
        assert forall|i: int, j: int|
            0 <= i < j < after.entries.len() implies after.entries[i].0 != after.entries[j].0 by {
            if j == n {
                assert(after.entries[i] == v.entries[i]);
                if after.entries[i].0 == root {
                    assert(contains_root(v.entries, root));
                }
            }
        }
    }
    let w = choose|i: int| 0 <= i < after.entries.len() && after.entries[i].0 == root;
    if w < n {
        assert(v.entries[w].0 == root);
        assert(contains_root(v.entries, root));
    }
    assert(w == n);
    assert(id_of(after.entries, root) == id);
}

} // verus!
