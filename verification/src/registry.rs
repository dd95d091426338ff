//! The active workload registry: at most one running instance per workload
//! identity.
//!
//! The registry owns every `ActiveProcessEntry` and is the single writer. Its
//! registration primitive makes the check-then-insert atomic with respect to
//! other callers: callers reach it through exclusive access (`&mut`), so for
//! a given identity the launch action runs for at most one of any set of
//! contending callers, and every later caller observes the existing entry
//! instead of launching a duplicate.
//!
//! The registry is generic in the two handles a supervised process leaves
//! behind: a status handle `H` for liveness observation and a cancellation
//! handle `C`. Both are opaque here; the registry only stores, hands out and
//! consumes them.

use vstd::prelude::*;
use vstd::set::axiom_set_insert_len;
use crate::text::bytes_equal;
use crate::workload::WorkloadIdentity;

verus! {

/// What the registry keeps for one running workload: a status handle, and a
/// cancellation handle that is consumed (set to absent) once a shutdown has
/// been requested, so cancellation cannot run twice.
pub struct ActiveProcessEntry<H, C> {
    pub status: H,
    pub cancel: Option<C>,
}

/// The verdict of a registration attempt.
#[derive(PartialEq, Eq, Structural)]
pub enum RegisterOutcome {
    /// No entry existed; the launch action ran and its entry was stored.
    Registered,
    /// An entry already existed; the launch action did not run.
    AlreadyActive,
}

/// The entries as a mapping from identity key to entry.
pub open spec fn map_of<H, C>(
    s: Seq<(WorkloadIdentity, ActiveProcessEntry<H, C>)>,
) -> Map<Seq<u8>, ActiveProcessEntry<H, C>>
    decreases s.len(),
{
    if s.len() == 0 {
        Map::empty()
    } else {
        map_of(s.drop_last()).insert(s.last().0@, s.last().1)
    }
}

/// No identity key occurs twice.
pub open spec fn unique_keys<H, C>(s: Seq<(WorkloadIdentity, ActiveProcessEntry<H, C>)>) -> bool {
    forall|i: int, j: int| 0 <= i < j < s.len() ==> s[i].0@ != s[j].0@
}

/// A key is in the mapping exactly when some entry carries it.
proof fn lemma_map_of_contains<H, C>(
    s: Seq<(WorkloadIdentity, ActiveProcessEntry<H, C>)>,
    k: Seq<u8>,
)
    ensures
        map_of(s).contains_key(k) <==> exists|i: int| 0 <= i < s.len() && s[i].0@ == k,
    decreases s.len(),
{
    if s.len() > 0 {
        lemma_map_of_contains(s.drop_last(), k);
        if s.last().0@ == k {
            assert(s[s.len() - 1].0@ == k);
        } else if map_of(s).contains_key(k) {
            let i = choose|i: int| 0 <= i < s.drop_last().len() && s.drop_last()[i].0@ == k;
            assert(s[i].0@ == k);
        } else {
            assert(forall|i: int| 0 <= i < s.len() - 1 ==> s.drop_last()[i] == s[i]);
        }
    }
}

/// Under unique keys, the mapping sends each entry's key to that entry.
proof fn lemma_map_of_index<H, C>(s: Seq<(WorkloadIdentity, ActiveProcessEntry<H, C>)>, i: int)
    requires
        unique_keys(s),
        0 <= i < s.len(),
    ensures
        map_of(s).contains_key(s[i].0@),
        map_of(s)[s[i].0@] == s[i].1,
    decreases s.len(),
{
    if i == s.len() - 1 {
    } else {
        assert(s.drop_last()[i] == s[i]);
        lemma_map_of_index(s.drop_last(), i);
        assert(s[i].0@ != s.last().0@);
    }
}

/// Under unique keys, the mapping has exactly one key per entry.
proof fn lemma_map_of_len<H, C>(s: Seq<(WorkloadIdentity, ActiveProcessEntry<H, C>)>)
    requires
        unique_keys(s),
    ensures
        map_of(s).dom().finite(),
        map_of(s).dom().len() == s.len(),
    decreases s.len(),
{
    if s.len() > 0 {
        lemma_map_of_len(s.drop_last());
        lemma_map_of_contains(s.drop_last(), s.last().0@);
        assert(forall|i: int| 0 <= i < s.len() - 1 ==> s.drop_last()[i] == s[i]);
        assert(!map_of(s.drop_last()).contains_key(s.last().0@));
        axiom_set_insert_len(map_of(s.drop_last()).dom(), s.last().0@);
        assert(map_of(s).dom() =~= map_of(s.drop_last()).dom().insert(s.last().0@));
    }
}

/// Updating one entry in place, key unchanged, updates the mapping at that key.
proof fn lemma_map_of_update<H, C>(
    s: Seq<(WorkloadIdentity, ActiveProcessEntry<H, C>)>,
    i: int,
    p: (WorkloadIdentity, ActiveProcessEntry<H, C>),
)
    requires
        unique_keys(s),
        0 <= i < s.len(),
        p.0@ == s[i].0@,
    ensures
        map_of(s.update(i, p)) == map_of(s).insert(s[i].0@, p.1),
    decreases s.len(),
{
    let t = s.update(i, p);
    if i == s.len() - 1 {
        assert(t.drop_last() =~= s.drop_last());
        assert(t.last() == p);
    } else {
        assert(t.last() == s.last());
        assert(t.drop_last() =~= s.drop_last().update(i, p));
        assert(s.drop_last()[i] == s[i]);
        lemma_map_of_update(s.drop_last(), i, p);
        assert(s[i].0@ != s.last().0@);
        assert(map_of(s.drop_last()).insert(s[i].0@, p.1).insert(s.last().0@, s.last().1)
            =~= map_of(s.drop_last()).insert(s.last().0@, s.last().1).insert(s[i].0@, p.1));
    }
}

/// Removing one entry removes its key from the mapping.
proof fn lemma_map_of_remove<H, C>(s: Seq<(WorkloadIdentity, ActiveProcessEntry<H, C>)>, i: int)
    requires
        unique_keys(s),
        0 <= i < s.len(),
    ensures
        map_of(s.remove(i)) == map_of(s).remove(s[i].0@),
    decreases s.len(),
{
    let t = s.remove(i);
    if i == s.len() - 1 {
        assert(t =~= s.drop_last());
        lemma_map_of_contains(s.drop_last(), s.last().0@);
        assert(forall|j: int| 0 <= j < s.len() - 1 ==> s.drop_last()[j] == s[j]);
        assert(!map_of(s.drop_last()).contains_key(s.last().0@));
        assert(map_of(s.drop_last()).insert(s.last().0@, s.last().1).remove(s.last().0@)
            =~= map_of(s.drop_last()));
    } else {
        assert(t.drop_last() =~= s.drop_last().remove(i));
        assert(t.last() == s.last());
        assert(s.drop_last()[i] == s[i]);
        lemma_map_of_remove(s.drop_last(), i);
        assert(s[i].0@ != s.last().0@);
        assert(map_of(s.drop_last()).remove(s[i].0@).insert(s.last().0@, s.last().1)
            =~= map_of(s.drop_last()).insert(s.last().0@, s.last().1).remove(s[i].0@));
    }
}

/// The registry: a mapping from workload identity to its process entry, with
/// at most one entry per identity.
pub struct WorkloadRegistry<H, C> {
    entries: Vec<(WorkloadIdentity, ActiveProcessEntry<H, C>)>,
}

impl<H, C> View for WorkloadRegistry<H, C> {
    type V = Map<Seq<u8>, ActiveProcessEntry<H, C>>;

    closed spec fn view(&self) -> Map<Seq<u8>, ActiveProcessEntry<H, C>> {
        map_of(self.entries@)
    }
}

impl<H, C> WorkloadRegistry<H, C> {
    /// At most one entry per identity.
    pub closed spec fn wf(&self) -> bool {
        unique_keys(self.entries@)
    }

    /// An empty registry.
    pub fn new() -> (r: Self)
        ensures
            r.wf(),
            r@ == Map::<Seq<u8>, ActiveProcessEntry<H, C>>::empty(),
    {
        WorkloadRegistry { entries: Vec::new() }
    }

    /// The index of the entry carrying `id`, if one exists.
    fn find_index(&self, id: &WorkloadIdentity) -> (r: Option<usize>)
        ensures
            match r {
                Some(i) => 0 <= i < self.entries@.len() && self.entries@[i as int].0@ == id@,
                None => forall|j: int| 0 <= j < self.entries@.len() ==> self.entries@[j].0@ != id@,
            },
    {
        let n = self.entries.len();
        let mut i: usize = 0;
        while i < n
            invariant
                n == self.entries@.len(),
                0 <= i <= n,
                forall|j: int| 0 <= j < i ==> self.entries@[j].0@ != id@,
            decreases n - i,
        {
            if bytes_equal(self.entries[i].0.key.as_slice(), id.key.as_slice()) {
                return Some(i);
            }
            i += 1;
        }
        None
    }

    /// Whether an entry for `id` is registered.
    pub fn contains(&self, id: &WorkloadIdentity) -> (r: bool)
        ensures
            r == self@.contains_key(id@),
    {
        proof {
            lemma_map_of_contains(self.entries@, id@);
        }
        self.find_index(id).is_some()
    }

    /// How many workloads are registered.
    pub fn len(&self) -> (r: usize)
        requires
            self.wf(),
        ensures
            r == self@.dom().len(),
    {
        proof {
            lemma_map_of_len(self.entries@);
        }
        self.entries.len()
    }

    /// The registration primitive of the launch path: runs `launch` and
    /// stores its entry only when no entry for `id` exists; a caller that
    /// finds an existing entry never launches. The check and the insert
    /// happen under one exclusive borrow, so no two contending callers for
    /// the same identity can both launch.
    pub fn register_if_absent<F: FnOnce() -> ActiveProcessEntry<H, C>>(
        &mut self,
        id: WorkloadIdentity,
        launch: F,
    ) -> (out: RegisterOutcome)
        requires
            old(self).wf(),
            call_requires(launch, ()),
        ensures
            final(self).wf(),
            out == spec_register_outcome(old(self)@, id@),
            old(self)@.contains_key(id@) ==> final(self)@ == old(self)@,
            !old(self)@.contains_key(id@) ==> exists|e: ActiveProcessEntry<H, C>|
                #[trigger] call_ensures(launch, (), e) && final(self)@ == old(self)@.insert(id@, e),
    {
        proof {
            lemma_map_of_contains(self.entries@, id@);
        }
        match self.find_index(&id) {
            Some(_) => RegisterOutcome::AlreadyActive,
            None => {
                let entry = launch();
                let ghost pre = self.entries@;
                self.entries.push((id, entry));
                proof {
                    assert(self.entries@.drop_last() =~= pre);
                    assert(forall|j: int| 0 <= j < pre.len() ==> self.entries@[j] == pre[j]);
                }
                RegisterOutcome::Registered
            },
        }
    }

    /// Takes the cancellation handle for `id`, consuming it: a second call
    /// finds it absent, so a shutdown is requested at most once.
    pub fn take_cancel(&mut self, id: &WorkloadIdentity) -> (r: Option<C>)
        requires
            old(self).wf(),
        ensures
            final(self).wf(),
            match r {
                Some(c) => old(self)@.contains_key(id@) && old(self)@[id@].cancel == Some(c)
                    && final(self)@ == old(self)@.insert(
                    id@,
                    (ActiveProcessEntry { status: old(self)@[id@].status, cancel: None }),
                ),
                None => final(self)@ == old(self)@ && (old(self)@.contains_key(id@)
                    ==> old(self)@[id@].cancel is None),
            },
    {
        match self.find_index(id) {
            Some(i) => {
                proof {
                    lemma_map_of_index(self.entries@, i as int);
                }
                let ghost pre = self.entries@;
                let (ident, entry) = self.entries.remove(i);
                let ActiveProcessEntry { status, cancel } = entry;
                self.entries.insert(i, (ident, ActiveProcessEntry { status, cancel: None }));
                proof {
                    let p = self.entries@[i as int];
                    assert(self.entries@ =~= pre.update(i as int, p));
                    lemma_map_of_update(pre, i as int, p);
                    if cancel is None {
                        assert(pre[i as int].1 == p.1);
                        assert(map_of(pre).insert(pre[i as int].0@, p.1) =~= map_of(pre));
                    }
                }
                cancel
            },
            None => {
                proof {
                    lemma_map_of_contains(self.entries@, id@);
                }
                None
            },
        }
    }

    /// Removes the entry for `id`, if one exists, handing it back.
    pub fn remove(&mut self, id: &WorkloadIdentity) -> (r: Option<ActiveProcessEntry<H, C>>)
        requires
            old(self).wf(),
        ensures
            final(self).wf(),
            match r {
                Some(e) => old(self)@.contains_key(id@) && e == old(self)@[id@] && final(self)@
                    == old(self)@.remove(id@),
                None => !old(self)@.contains_key(id@) && final(self)@ == old(self)@,
            },
    {
        proof {
            lemma_map_of_contains(self.entries@, id@);
        }
        match self.find_index(id) {
            Some(i) => {
                proof {
                    lemma_map_of_index(self.entries@, i as int);
                    lemma_map_of_remove(self.entries@, i as int);
                }
                let ghost pre = self.entries@;
                let (_, entry) = self.entries.remove(i);
                proof {
                    assert(forall|a: int, b: int|
                        0 <= a < b < self.entries@.len() ==> self.entries@[a].0@
                            != self.entries@[b].0@);
                }
                Some(entry)
            },
            None => None,
        }
    }

    /// Reconciles one identity on a resolution pass: an entry whose process
    /// has exited is dropped, so it is not treated as active indefinitely.
    pub fn reconcile(&mut self, id: &WorkloadIdentity, exited: bool)
        requires
            old(self).wf(),
        ensures
            final(self).wf(),
            exited ==> final(self)@ == old(self)@.remove(id@),
            !exited ==> final(self)@ == old(self)@,
    {
        if exited {
            let removed = self.remove(id);
            proof {
                if removed is None {
                    assert(self@ =~= self@.remove(id@));
                }
            }
        }
    }
}

/// The verdict a registration attempt must reach, given the registered map.
pub open spec fn spec_register_outcome<H, C>(
    m: Map<Seq<u8>, ActiveProcessEntry<H, C>>,
    k: Seq<u8>,
) -> RegisterOutcome {
    if m.contains_key(k) {
        RegisterOutcome::AlreadyActive
    } else {
        RegisterOutcome::Registered
    }
}

/// The map a registration attempt leaves behind.
pub open spec fn spec_register_map<H, C>(
    m: Map<Seq<u8>, ActiveProcessEntry<H, C>>,
    k: Seq<u8>,
    e: ActiveProcessEntry<H, C>,
) -> Map<Seq<u8>, ActiveProcessEntry<H, C>> {
    if m.contains_key(k) {
        m
    } else {
        m.insert(k, e)
    }
}

/// How many of a run of registration attempts for one identity launch, when
/// each attempt would store the corresponding entry of `es`.
pub open spec fn spec_launch_count<H, C>(
    m: Map<Seq<u8>, ActiveProcessEntry<H, C>>,
    k: Seq<u8>,
    es: Seq<ActiveProcessEntry<H, C>>,
) -> nat
    decreases es.len(),
{
    if es.len() == 0 {
        0
    } else {
        (if m.contains_key(k) {
            0nat
        } else {
            1nat
        }) + spec_launch_count(spec_register_map(m, k, es.first()), k, es.drop_first())
    }
}

/// Once an entry for the identity exists, no later attempt launches.
proof fn lemma_no_launch_when_active<H, C>(
    m: Map<Seq<u8>, ActiveProcessEntry<H, C>>,
    k: Seq<u8>,
    es: Seq<ActiveProcessEntry<H, C>>,
)
    requires
        m.contains_key(k),
    ensures
        spec_launch_count(m, k, es) == 0,
    decreases es.len(),
{
    if es.len() > 0 {
        lemma_no_launch_when_active(spec_register_map(m, k, es.first()), k, es.drop_first());
    }
}

/// Any number of contending registration attempts for one absent identity
/// launch exactly once: the first attempt launches, every later caller
/// observes the entry it stored and does not.
pub proof fn lemma_register_launches_once<H, C>(
    m: Map<Seq<u8>, ActiveProcessEntry<H, C>>,
    k: Seq<u8>,
    es: Seq<ActiveProcessEntry<H, C>>,
)
    requires
        !m.contains_key(k),
        es.len() >= 1,
    ensures
        spec_launch_count(m, k, es) == 1,
{
    lemma_no_launch_when_active(spec_register_map(m, k, es.first()), k, es.drop_first());
}

/// Contending registrations for one identity launch exactly once: of two
/// attempts serialized by the registry's exclusive access, the first
/// registers its launched entry, the second observes it and does not launch,
/// and the registry then holds exactly one entry more for that identity.
pub proof fn lemma_register_exclusive<H, C>(
    m: Map<Seq<u8>, ActiveProcessEntry<H, C>>,
    k: Seq<u8>,
    e1: ActiveProcessEntry<H, C>,
)
    requires
        m.dom().finite(),
        !m.contains_key(k),
    ensures
        spec_register_outcome(m, k) == RegisterOutcome::Registered,
        spec_register_outcome(m.insert(k, e1), k) == RegisterOutcome::AlreadyActive,
        m.insert(k, e1)[k] == e1,
        m.insert(k, e1).dom().len() == m.dom().len() + 1,
{
    axiom_set_insert_len(m.dom(), k);
    assert(m.insert(k, e1).dom() =~= m.dom().insert(k));
}

} // verus!
