//! The process tracker: an in-memory pid → process cache.
//!
//! The tracker ingests the exec/exit event stream, answers lookups from
//! the dispatcher, and sweeps dead entries.  Resolution of a pid against
//! `/proc` and the container runtimes happens outside the library and is
//! handed in as an `Option<Process>`; the tracker itself is a sequential
//! data structure.  The runtime serialises access to it with a
//! readers–writer lock and never holds that lock across a suspension
//! point, so every lock-protected critical section is exactly one call
//! into this module; the lemmas at the end state what interleavings of
//! those sections can produce.

use std::collections::HashMap;
use vstd::prelude::*;
use vstd::set_lib::lemma_len_subset;
use vstd::std_specs::iter::{IteratorSpec, VerusForLoopWrapper};
use vstd::string::StringSliceAdditionalSpecFns;
use crate::data::{Process, ProcessView, Status};
use crate::event::Exec;

verus! {

broadcast use vstd::std_specs::hash::group_hash_axioms;

/// The pid → process cache.  Its view is the map from pid to the
/// mathematical content of the cached entry.
pub struct Tracker {
    table: HashMap<i32, Process>,
}

/// The mathematical table a concrete map denotes.
spec fn table_view(m: Map<i32, Process>) -> Map<int, ProcessView> {
    Map::new(
        |k: int| i32::MIN <= k <= i32::MAX && m.contains_key(k as i32),
        |k: int| m[k as i32]@,
    )
}

/// The view of an optional resolution outcome.
pub open spec fn view_opt(o: Option<Process>) -> Option<ProcessView> {
    match o {
        Some(p) => Some(p@),
        None => None,
    }
}

/// Every cached process carries the pid it is filed under.
pub open spec fn table_wf(m: Map<int, ProcessView>) -> bool {
    forall|k: int| #[trigger] m.contains_key(k) ==> m[k].pid == k
}

/// The table after a lookup for `pid` whose miss-path resolution
/// returned `resolved`: a hit leaves the table alone; a resolved miss
/// inserts; a failed miss inserts nothing.
pub open spec fn table_after_get(
    m: Map<int, ProcessView>,
    pid: i32,
    resolved: Option<ProcessView>,
) -> Map<int, ProcessView> {
    if m.contains_key(pid as int) {
        m
    } else {
        match resolved {
            Some(p) => m.insert(pid as int, p),
            None => m,
        }
    }
}

/// What a lookup for `pid` returns: the cached entry on a hit, else
/// whatever the resolution produced.
pub open spec fn got_process(
    m: Map<int, ProcessView>,
    pid: i32,
    resolved: Option<ProcessView>,
) -> Option<ProcessView> {
    if m.contains_key(pid as int) {
        Some(m[pid as int])
    } else {
        resolved
    }
}

/// The table after one exec-stream event.  An exec event inserts the
/// resolution when there is one; an exit event marks a present entry
/// dead, preserving its other fields, and ignores unknown pids.
pub open spec fn table_after_ingest(
    m: Map<int, ProcessView>,
    ev: Exec,
    resolved: Option<ProcessView>,
) -> Map<int, ProcessView> {
    match ev {
        Exec::Exec(pid) => match resolved {
            Some(p) => m.insert(pid as int, p),
            None => m,
        },
        Exec::Exit(pid) => if m.contains_key(pid as int) {
            m.insert(pid as int, m[pid as int].to_dead())
        } else {
            m
        },
    }
}

/// The table after a sweep: exactly the live entries survive.
pub open spec fn table_after_sweep(m: Map<int, ProcessView>) -> Map<int, ProcessView> {
    Map::new(|k: int| m.contains_key(k) && m[k].status is Alive, |k: int| m[k])
}

/// A resolution handed to `get` or `ingest` must describe the pid it
/// was asked about.
pub open spec fn resolution_for(pid: i32, resolved: Option<Process>) -> bool {
    match resolved {
        Some(p) => p.pid == pid,
        None => true,
    }
}

proof fn lemma_table_view_insert(m: Map<i32, Process>, k: i32, p: Process)
    ensures
        table_view(m.insert(k, p)) == table_view(m).insert(k as int, p@),
{
    assert(table_view(m.insert(k, p)) =~= table_view(m).insert(k as int, p@));
}

impl Tracker {
    /// The table this tracker holds.
    pub closed spec fn view(&self) -> Map<int, ProcessView> {
        table_view(self.table@)
    }

    /// Internal consistency: every entry carries the pid it is filed
    /// under.
    pub closed spec fn wf(&self) -> bool {
        forall|k: i32| #[trigger] self.table@.contains_key(k) ==> self.table@[k].pid == k
    }

    /// How many entries the table holds.
    pub closed spec fn count(&self) -> nat {
        self.table@.len()
    }

    /// The tracker's internal invariant yields the public table law:
    /// every cached process carries the pid it is filed under.
    pub proof fn lemma_table_wf(&self)
        requires
            self.wf(),
        ensures
            table_wf(self@),
    {
    }

    /// An empty tracker.
    pub fn new() -> (t: Tracker)
        ensures
            t@ == Map::<int, ProcessView>::empty(),
            t.wf(),
            t.count() == 0,
            table_wf(t@),
    {
        let t = Tracker { table: HashMap::new() };
        proof {
            assert(t@ =~= Map::<int, ProcessView>::empty());
        }
        t
    }

    /// Number of cached entries, dead ones included.
    pub fn len(&self) -> (n: usize)
        ensures
            n == self.count(),
    {
        self.table.len()
    }

    /// The cached entry for `pid`, if any: the read path of a lookup.
    /// Nothing is inserted.
    pub fn cached(&self, pid: i32) -> (r: Option<Process>)
        requires
            self.wf(),
        ensures
            match r {
                Some(p) => got_process(self@, pid, None) == Some(p@),
                None => got_process(self@, pid, None) is None,
            },
    {
        match self.table.get(&pid) {
            Some(p) => Some(p.duplicate()),
            None => None,
        }
    }

    /// Look up `pid`.  On a hit the cached entry is returned and the
    /// table is unchanged.  On a miss, `resolved` — the outcome of
    /// resolving the pid outside the lock — is cached and returned; a
    /// failed resolution caches nothing and the caller gets `None`.
    pub fn get(&mut self, pid: i32, resolved: Option<Process>) -> (r: Option<Process>)
        requires
            old(self).wf(),
            resolution_for(pid, resolved),
        ensures
            final(self).wf(),
            final(self)@ == table_after_get(old(self)@, pid, view_opt(resolved)),
            view_opt(r) == got_process(old(self)@, pid, view_opt(resolved)),
            table_wf(final(self)@),
    {
        if let Some(p) = self.table.get(&pid) {
            let out = p.duplicate();
            proof {
                self.lemma_table_wf();
            }
            return Some(out);
        }
        match resolved {
            Some(p) => {
                let out = p.duplicate();
                proof {
                    lemma_table_view_insert(self.table@, pid, p);
                }
                self.table.insert(pid, p);
                proof {
                    self.lemma_table_wf();
                }
                Some(out)
            },
            None => None,
        }
    }

    /// Apply one exec-stream event.  `resolved` is the resolution of the
    /// pid when the event is an exec; it is ignored for exits.
    pub fn ingest(&mut self, ev: Exec, resolved: Option<Process>)
        requires
            old(self).wf(),
            ev matches Exec::Exec(pid) ==> resolution_for(pid, resolved),
        ensures
            final(self).wf(),
            final(self)@ == table_after_ingest(old(self)@, ev, view_opt(resolved)),
            table_wf(final(self)@),
    {
        match ev {
            Exec::Exec(pid) => {
                if let Some(p) = resolved {
                    proof {
                        lemma_table_view_insert(self.table@, pid, p);
                    }
                    self.table.insert(pid, p);
                }
            },
            Exec::Exit(pid) => {
                let dead = match self.table.get(&pid) {
                    Some(p) => {
                        let mut dead = p.duplicate();
                        dead.status = Status::Dead;
                        Some(dead)
                    },
                    None => None,
                };
                if let Some(dead) = dead {
                    proof {
                        assert(dead@ =~= old(self)@[pid as int].to_dead());
                        lemma_table_view_insert(self.table@, pid, dead);
                    }
                    self.table.insert(pid, dead);
                }
            },
        }
        proof {
            self.lemma_table_wf();
        }
    }

    /// Drop every dead entry; live ones survive untouched.  Returns how
    /// many entries were dropped.
    pub fn sweep(&mut self) -> (n: usize)
        requires
            old(self).wf(),
        ensures
            final(self).wf(),
            final(self)@ == table_after_sweep(old(self)@),
            n == old(self).count() - final(self).count(),
            table_wf(final(self)@),
    {
        let ghost m0 = self.table@;
        let before = self.table.len();
        let mut kept: HashMap<i32, Process> = HashMap::new();
        let iter = self.table.iter();
        let ghost all = iter.remaining();
        let mut w = VerusForLoopWrapper::new(iter, Ghost(None));
        loop
            invariant
                self.table@ == m0,
                w.wf(),
                w.iter.obeys_prophetic_iter_laws(),
                w.seq() == all,
                all.len() == m0.dom().len(),
                forall|i: int|
                    0 <= i < all.len() ==> m0.contains_key(*(#[trigger] all[i]).0)
                        && m0[*all[i].0] == *all[i].1,
                forall|k: i32| #[trigger] m0.contains_key(k) ==> all.contains((&k, &m0[k])),
                forall|k: i32| #[trigger] kept@.contains_key(k) ==> exists|j: int|
                    0 <= j < w.index() && *(#[trigger] all[j]).0 == k && all[j].1.status is Alive
                        && kept@[k]@ == all[j].1@,
                forall|j: int|
                    0 <= j < w.index() && (#[trigger] all[j]).1.status is Alive ==> {
                        &&& kept@.contains_key(*all[j].0)
                        &&& kept@[*all[j].0]@ == all[j].1@
                    },
                kept@.dom() <= m0.dom(),
                IteratorSpec::decrease(&w.iter) is Some,
            ensures
                w.index() == all.len(),
                forall|k: i32| #[trigger] kept@.contains_key(k) ==> exists|j: int|
                    0 <= j < all.len() && *(#[trigger] all[j]).0 == k && all[j].1.status is Alive
                        && kept@[k]@ == all[j].1@,
                forall|j: int|
                    0 <= j < all.len() && (#[trigger] all[j]).1.status is Alive ==> {
                        &&& kept@.contains_key(*all[j].0)
                        &&& kept@[*all[j].0]@ == all[j].1@
                    },
                kept@.dom() <= m0.dom(),
            decreases IteratorSpec::decrease(&w.iter)->0,
        {
            match w.next() {
                None => {
                    break;
                },
                Some(pair) => {
                    proof {
                        assert(pair == all[w.index() - 1]);
                    }
                    let alive = match pair.1.status {
                        Status::Alive => true,
                        Status::Dead => false,
                    };
                    if alive {
                        kept.insert(*pair.0, pair.1.duplicate());
                    }
                },
            }
        }
        proof {
            lemma_len_subset(kept@.dom(), m0.dom());
            assert(table_view(kept@) =~= table_after_sweep(table_view(m0))) by {
                assert forall|k: int| #[trigger] table_view(kept@).contains_key(k)
                    implies table_after_sweep(table_view(m0)).contains_key(k) && table_view(
                    kept@,
                )[k] == table_after_sweep(table_view(m0))[k] by {
                    let ki = k as i32;
                    let j = choose|j: int|
                        0 <= j < all.len() && *(#[trigger] all[j]).0 == ki && all[j].1.status
                            is Alive && kept@[ki]@ == all[j].1@;
                    assert(m0.contains_key(ki) && m0[ki] == *all[j].1);
                };
                assert forall|k: int| #[trigger] table_after_sweep(table_view(m0)).contains_key(k)
                    implies table_view(kept@).contains_key(k) by {
                    let ki = k as i32;
                    assert(all.contains((&ki, &m0[ki])));
                    let j = choose|j: int| 0 <= j < all.len() && all[j] == (&ki, &m0[ki]);
                    assert(all[j].1.status is Alive);
                };
            }
        }
        let dropped = before - kept.len();
        self.table = kept;
        proof {
            self.lemma_table_wf();
        }
        dropped
    }
}

/// Which container runtime a cgroup path points at, with the container
/// id to look up there.
#[derive(Clone, Debug, PartialEq, Eq)]
pub enum RuntimeRef {
    Docker(Vec<u8>),
    Cri(Vec<u8>),
}

/// Mathematical content of a [`RuntimeRef`].
pub ghost enum RuntimeRefView {
    Docker(Seq<u8>),
    Cri(Seq<u8>),
}

impl View for RuntimeRef {
    type V = RuntimeRefView;

    open spec fn view(&self) -> RuntimeRefView {
        match self {
            RuntimeRef::Docker(id) => RuntimeRefView::Docker(id@),
            RuntimeRef::Cri(id) => RuntimeRefView::Cri(id@),
        }
    }
}

/// Which runtime to ask about a cgroup path.  Split on slashes, a path
/// of exactly `["", "docker", id]` is a Docker container; one that
/// starts `["", "kubepods", ...]` is a CRI container whose id is the
/// last segment; anything else belongs to no container runtime.
pub open spec fn spec_classify_cgroup(path: Seq<u8>) -> Option<RuntimeRefView> {
    let segs = crate::text::spec_split(path, 47);
    if segs.len() == 3 && segs[0] == Seq::<u8>::empty() && segs[1] == "docker".spec_bytes() {
        Some(RuntimeRefView::Docker(segs[2]))
    } else if segs.len() >= 3 && segs[0] == Seq::<u8>::empty() && segs[1]
        == "kubepods".spec_bytes() {
        Some(RuntimeRefView::Cri(segs.last()))
    } else {
        None
    }
}

/// Classify one cgroup path.
pub fn classify_cgroup(path: &[u8]) -> (r: Option<RuntimeRef>)
    ensures
        match r {
            Some(rr) => spec_classify_cgroup(path@) == Some(rr@),
            None => spec_classify_cgroup(path@) is None,
        },
{
    let mut segs = crate::text::split_bytes(path, 47);
    let ghost sv = segs.deep_view();
    proof {
        assert(forall|i: int|
            0 <= i < segs@.len() ==> (#[trigger] segs@[i]).deep_view() =~= segs@[i]@);
    }
    if segs.len() == 3 && segs[0].is_empty() && crate::text::bytes_eq(
        segs[1].as_slice(),
        "docker".as_bytes(),
    ) {
        proof {
            assert(sv[0] =~= Seq::<u8>::empty());
        }
        let id = match segs.pop() {
            Some(id) => id,
            None => Vec::new(),
        };
        proof {
            assert(id@ == sv[2]);
        }
        Some(RuntimeRef::Docker(id))
    } else if segs.len() >= 3 && segs[0].is_empty() && crate::text::bytes_eq(
        segs[1].as_slice(),
        "kubepods".as_bytes(),
    ) {
        proof {
            assert(sv[0] =~= Seq::<u8>::empty());
        }
        let id = match segs.pop() {
            Some(id) => id,
            None => Vec::new(),
        };
        proof {
            assert(id@ == sv.last());
        }
        Some(RuntimeRef::Cri(id))
    } else {
        None
    }
}

/// Lookups, exec and exit events, and sweeps keep the table well
/// formed: every entry still carries the pid it is filed under.
pub proof fn lemma_transitions_preserve_table_wf(
    m: Map<int, ProcessView>,
    pid: i32,
    resolved: Option<ProcessView>,
)
    requires
        table_wf(m),
        resolved matches Some(p) ==> p.pid == pid as int,
    ensures
        table_wf(table_after_get(m, pid, resolved)),
        table_wf(table_after_ingest(m, Exec::Exec(pid), resolved)),
        table_wf(table_after_ingest(m, Exec::Exit(pid), None)),
        table_wf(table_after_sweep(m)),
{
}

/// A lookup and an exec-event for the same unknown pid may run in either
/// order; both orders leave the same well-formed table, whose entry for
/// the pid is exactly the event's resolution — never a mixture of the
/// two racing writes.
pub proof fn lemma_get_ingest_consistent(
    m: Map<int, ProcessView>,
    pid: i32,
    a: ProcessView,
    b: ProcessView,
)
    requires
        table_wf(m),
        !m.contains_key(pid as int),
        a.pid == pid as int,
        b.pid == pid as int,
    ensures
        ({
            let first_get = table_after_ingest(
                table_after_get(m, pid, Some(a)),
                Exec::Exec(pid),
                Some(b),
            );
            let first_ingest = table_after_get(
                table_after_ingest(m, Exec::Exec(pid), Some(b)),
                pid,
                Some(a),
            );
            &&& first_get == first_ingest
            &&& first_get == m.insert(pid as int, b)
            &&& first_get[pid as int] == b
            &&& table_wf(first_get)
        }),
{
    assert(table_after_ingest(table_after_get(m, pid, Some(a)), Exec::Exec(pid), Some(b))
        =~= m.insert(pid as int, b));
}

/// The lifecycle law: for a stream `exec(p); sock(p); exit(p)` over a
/// table that does not know `p`, the lookup the sock event triggers
/// yields exactly the process the exec event cached (so the dispatcher
/// emits exactly one record, and it carries pid `p`), the exit marks
/// that entry dead with its other fields preserved, and the next sweep
/// purges it.
pub proof fn lemma_lifecycle(m: Map<int, ProcessView>, pid: i32, p: ProcessView)
    requires
        table_wf(m),
        !m.contains_key(pid as int),
        p.pid == pid as int,
        p.status is Alive,
    ensures
        ({
            let t1 = table_after_ingest(m, Exec::Exec(pid), Some(p));
            let t2 = table_after_get(t1, pid, None);
            let t3 = table_after_ingest(t2, Exec::Exit(pid), None);
            let t4 = table_after_sweep(t3);
            &&& got_process(t1, pid, None) == Some(p)
            &&& t2 == t1
            &&& t3[pid as int] == p.to_dead()
            &&& !t4.contains_key(pid as int)
            &&& table_wf(t4)
        }),
{
}

} // verus!
