//! The job dispatcher: matches a stream of remote job-call events to the one
//! (scope, job-number) binding a handler instance owns.
//!
//! A handler is bound at construction and never rebinds. Its one-time
//! registration action is guarded by a single-fire latch scoped to the
//! instance, so it cannot repeat across batches. Within a batch, matching
//! events are handed to the computation in the order the stream delivered
//! them; an event matches only when its scope and job-number both equal the
//! bound values, with no partial matching.

use vstd::prelude::*;

verus! {

/// One occurrence from the remote event stream: the scope it belongs to, the
/// job-number it calls, the call identifier its result must answer, the block
/// height it arrived at, and its opaque ordered argument payload.
pub struct JobEvent<A> {
    pub scope: u64,
    pub job: u8,
    pub call_id: u64,
    pub block: u64,
    pub args: A,
}

/// The event is addressed to the given binding: scope and job-number both
/// equal the bound values exactly.
pub open spec fn event_matches<A>(e: JobEvent<A>, scope: u64, job: u8) -> bool {
    e.scope == scope && e.job == job
}

/// The invocations one batch owes a handler bound to (`scope`, `job`): for
/// each matching event, in stream order, its call identifier and arguments.
pub open spec fn spec_invocations<A>(events: Seq<JobEvent<A>>, scope: u64, job: u8) -> Seq<
    (u64, A),
>
    decreases events.len(),
{
    if events.len() == 0 {
        Seq::empty()
    } else {
        let rest = spec_invocations(events.drop_first(), scope, job);
        if event_matches(events.first(), scope, job) {
            seq![(events.first().call_id, events.first().args)] + rest
        } else {
            rest
        }
    }
}

/// Events addressed elsewhere never trigger an invocation: a batch without a
/// single matching event owes the handler nothing, whatever its other fields
/// hold.
pub proof fn lemma_nonmatching_ignored<A>(events: Seq<JobEvent<A>>, scope: u64, job: u8)
    requires
        forall|i: int| 0 <= i < events.len() ==> !event_matches(#[trigger] events[i], scope, job),
    ensures
        spec_invocations(events, scope, job) == Seq::<(u64, A)>::empty(),
    decreases events.len(),
{
    if events.len() > 0 {
        assert(events[0] == events.first());
        assert(forall|i: int|
            0 <= i < events.drop_first().len() ==> events.drop_first()[i] == events[i + 1]);
        lemma_nonmatching_ignored(events.drop_first(), scope, job);
    }
}

/// Addressing to one binding, as a predicate on events.
pub open spec fn matching_pred<A>(scope: u64, job: u8) -> spec_fn(JobEvent<A>) -> bool {
    |e: JobEvent<A>| event_matches(e, scope, job)
}

/// The invocation an event owes: its call identifier and arguments.
pub open spec fn invocation_of<A>() -> spec_fn(JobEvent<A>) -> (u64, A) {
    |e: JobEvent<A>| (e.call_id, e.args)
}

/// A batch of matching events is answered in full and in order: every event
/// yields exactly one invocation, carrying that event's call identifier and
/// arguments.
pub proof fn lemma_matching_answered<A>(events: Seq<JobEvent<A>>, scope: u64, job: u8)
    requires
        forall|i: int| 0 <= i < events.len() ==> event_matches(#[trigger] events[i], scope, job),
    ensures
        spec_invocations(events, scope, job) == events.map_values(invocation_of::<A>()),
    decreases events.len(),
{
    let f = invocation_of::<A>();
    if events.len() == 0 {
        assert(spec_invocations(events, scope, job) =~= events.map_values(f));
    } else {
        assert(events[0] == events.first());
        assert(forall|i: int|
            0 <= i < events.drop_first().len() ==> events.drop_first()[i] == events[i + 1]);
        lemma_matching_answered(events.drop_first(), scope, job);
        assert(spec_invocations(events, scope, job) =~= events.map_values(f));
    }
}

/// The batch model agrees with the standard formulation: the invocations are
/// exactly the matching events, kept in order, each mapped to its call
/// identifier and arguments.
pub proof fn lemma_invocations_filter_map<A>(events: Seq<JobEvent<A>>, scope: u64, job: u8)
    ensures
        spec_invocations(events, scope, job) == events.filter(
            matching_pred::<A>(scope, job),
        ).map_values(invocation_of::<A>()),
    decreases events.len(),
{
    let p = matching_pred::<A>(scope, job);
    let f = invocation_of::<A>();
    if events.len() == 0 {
        assert(events.filter(p).map_values(f) =~= Seq::<(u64, A)>::empty());
        assert(spec_invocations(events, scope, job) =~= events.filter(p).map_values(f));
    } else {
        let x = events.first();
        let rest = events.drop_first();
        assert(events =~= seq![x] + rest);
        Seq::lemma_filter_prepend(rest, x, p);
        lemma_invocations_filter_map(rest, scope, job);
        if p(x) {
            assert((seq![x] + rest.filter(p)).map_values(f) =~= seq![f(x)] + rest.filter(
                p,
            ).map_values(f));
            assert(spec_invocations(events, scope, job) =~= events.filter(p).map_values(f));
        } else {
            assert((Seq::<JobEvent<A>>::empty() + rest.filter(p)).map_values(f) =~= rest.filter(
                p,
            ).map_values(f));
            assert(spec_invocations(events, scope, job) =~= events.filter(p).map_values(f));
        }
    }
}

/// Dropping every non-matching event from a batch changes nothing: only the
/// matching events ever reach the handler.
pub proof fn lemma_only_matching_events_invoke<A>(events: Seq<JobEvent<A>>, scope: u64, job: u8)
    ensures
        spec_invocations(events, scope, job) == spec_invocations(
            events.filter(matching_pred::<A>(scope, job)),
            scope,
            job,
        ),
{
    let p = matching_pred::<A>(scope, job);
    let filtered = events.filter(p);
    lemma_invocations_filter_map(events, scope, job);
    assert forall|i: int| 0 <= i < filtered.len() implies event_matches(
        #[trigger] filtered[i],
        scope,
        job,
    ) by {
        events.lemma_filter_pred(p, i);
    }
    lemma_matching_answered(filtered, scope, job);
}

/// A handler instance, bound to one (scope, job-number) pair, with its
/// instance-scoped single-fire registration latch.
pub struct JobHandler {
    scope: u64,
    job: u8,
    armed: bool,
}

impl JobHandler {
    /// The scope this handler is bound to.
    pub closed spec fn bound_scope(&self) -> u64 {
        self.scope
    }

    /// The job-number this handler is bound to.
    pub closed spec fn bound_job(&self) -> u8 {
        self.job
    }

    /// The registration latch has fired.
    pub closed spec fn is_armed(&self) -> bool {
        self.armed
    }

    /// The scope this handler answers for.
    pub fn scope(&self) -> (r: u64)
        ensures
            r == self.bound_scope(),
    {
        self.scope
    }

    /// The job-number this handler answers for.
    pub fn job(&self) -> (r: u8)
        ensures
            r == self.bound_job(),
    {
        self.job
    }

    /// A fresh handler bound to (`scope`, `job`), not yet armed.
    pub fn new(scope: u64, job: u8) -> (r: Self)
        ensures
            r.bound_scope() == scope,
            r.bound_job() == job,
            !r.is_armed(),
    {
        JobHandler { scope, job, armed: false }
    }

    /// Screens one incoming batch: fires the one-time registration action
    /// exactly when the latch has not fired before, and reports whether any
    /// event in the batch is addressed to this handler. The returned pair is
    /// (registration fired, batch has a matching event).
    pub fn can_handle_events<A>(&mut self, events: &Vec<JobEvent<A>>) -> (r: (bool, bool))
        ensures
            final(self).bound_scope() == old(self).bound_scope(),
            final(self).bound_job() == old(self).bound_job(),
            final(self).is_armed(),
            r.0 == !old(self).is_armed(),
            r.1 == exists|i: int|
                0 <= i < events@.len() && event_matches(
                    #[trigger] events@[i],
                    old(self).bound_scope(),
                    old(self).bound_job(),
                ),
    {
        let fires = !self.armed;
        self.armed = true;
        let n = events.len();
        let mut i: usize = 0;
        let mut found = false;
        while i < n
            invariant
                n == events@.len(),
                0 <= i <= n,
                found == exists|k: int|
                    0 <= k < i && event_matches(#[trigger] events@[k], self.scope, self.job),
            decreases n - i,
        {
            if events[i].scope == self.scope && events[i].job == self.job {
                assert(event_matches(events@[i as int], self.scope, self.job));
                found = true;
            }
            i += 1;
        }
        (fires, found)
    }

    /// Consumes one batch: hands back, in stream order, the call identifier
    /// and arguments of every event addressed to this handler, exactly once
    /// per matching event, and nothing for any other event.
    pub fn handle_events<A>(&self, events: Vec<JobEvent<A>>) -> (r: Vec<(u64, A)>)
        ensures
            r@ == spec_invocations(events@, self.bound_scope(), self.bound_job()),
    {
        let ghost whole = events@;
        let mut rest = events;
        let mut out: Vec<(u64, A)> = Vec::new();
        proof {
            assert(out@ + spec_invocations(rest@, self.scope, self.job) =~= spec_invocations(
                whole,
                self.scope,
                self.job,
            ));
        }
        while rest.len() > 0
            invariant
                out@ + spec_invocations(rest@, self.scope, self.job) == spec_invocations(
                    whole,
                    self.scope,
                    self.job,
                ),
            decreases rest.len(),
        {
            let ghost before = rest@;
            let e = rest.remove(0);
            proof {
                assert(rest@ =~= before.drop_first());
                assert(e == before.first());
            }
            if e.scope == self.scope && e.job == self.job {
                out.push((e.call_id, e.args));
                proof {
                    assert(out@ + spec_invocations(rest@, self.scope, self.job) =~= spec_invocations(
                        whole,
                        self.scope,
                        self.job,
                    ));
                }
            } else {
                proof {
                    assert(out@ + spec_invocations(rest@, self.scope, self.job) =~= spec_invocations(
                        whole,
                        self.scope,
                        self.job,
                    ));
                }
            }
        }
        out
    }
}

/// How often the registration action fires over `n` batches, starting from a
/// latch in state `armed`: each batch fires exactly when the latch had not
/// fired, and leaves it fired.
pub open spec fn count_fires(n: nat, armed: bool) -> nat
    decreases n,
{
    if n == 0 {
        0
    } else {
        (if armed {
            0nat
        } else {
            1nat
        }) + count_fires((n - 1) as nat, true)
    }
}

/// A latch that has fired never fires again.
pub proof fn lemma_armed_never_fires(n: nat)
    ensures
        count_fires(n, true) == 0,
    decreases n,
{
    if n > 0 {
        lemma_armed_never_fires((n - 1) as nat);
    }
}

/// The one-time registration action fires exactly once across any number of
/// batches: a fresh handler fires on its first batch and on no later one.
pub proof fn lemma_registration_fires_once(n: nat)
    requires
        n >= 1,
    ensures
        count_fires(n, false) == 1,
{
    lemma_armed_never_fires((n - 1) as nat);
}

/// The identity this events watcher logs under.
pub struct Logger {
    pub id: String,
}

/// The watcher that consumes the remote event stream and feeds handler
/// instances with batches.
pub struct TangleEventsWatcher {
    pub logger: Logger,
}

impl TangleEventsWatcher {
    /// The logger this watcher reports through.
    pub fn logger(&self) -> (r: &Logger)
        ensures
            *r == self.logger,
    {
        &self.logger
    }

    /// The watcher's tag on the operator log surface.
    pub fn tag(&self) -> (r: &'static str)
        ensures
            r@ == "tangle"@,
    {
        "tangle"
    }

    /// The authority-side module whose events this watcher consumes.
    pub fn pallet_name(&self) -> (r: &'static str)
        ensures
            r@ == "Services"@,
    {
        "Services"
    }
}

} // verus!
