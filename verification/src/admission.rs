//! Admission control: a bound on the requests in flight. A request beyond
//! the bound is turned away at once; none waits.

use crate::router::ServeError;
use vstd::prelude::*;

verus! {

/// The bound and the number of requests in flight.
pub struct AdmissionView {
    pub limit: nat,
    pub in_flight: nat,
}

/// What becomes of a request that arrives: it is admitted, and counted, while
/// fewer than `limit` are in flight; else it is rejected and nothing changes.
pub open spec fn arrive(state: AdmissionView) -> (AdmissionView, bool) {
    if state.in_flight < state.limit {
        (AdmissionView { limit: state.limit, in_flight: state.in_flight + 1 }, true)
    } else {
        (state, false)
    }
}

/// What becomes of the count when a request is done.
pub open spec fn leave(state: AdmissionView) -> AdmissionView {
    if state.in_flight > 0 {
        AdmissionView { limit: state.limit, in_flight: (state.in_flight - 1) as nat }
    } else {
        state
    }
}

/// The state after `n` requests arrived in a row, none of them done yet, and
/// how many of them were admitted.
pub open spec fn arrive_many(state: AdmissionView, n: nat) -> (AdmissionView, nat)
    decreases n,
{
    if n == 0 {
        (state, 0)
    } else {
        let (before, admitted) = arrive_many(state, (n - 1) as nat);
        let (after, ok) = arrive(before);
        (
            after,
            if ok {
                admitted + 1
            } else {
                admitted
            },
        )
    }
}

/// Of requests that arrive together, as many are admitted as there is room
/// for and every other one is rejected: a burst larger than the room left
/// always sees rejections, and the number in flight never passes the bound.
pub proof fn lemma_burst(state: AdmissionView, n: nat)
    requires
        state.in_flight <= state.limit,
    ensures
        ({
            let room = state.limit - state.in_flight;
            let (after, admitted) = arrive_many(state, n);
            &&& admitted == if n <= room {
                n as int
            } else {
                room
            }
            &&& after.limit == state.limit
            &&& after.in_flight == state.in_flight + admitted
            &&& after.in_flight <= after.limit
            &&& n > room ==> n - admitted > 0
        }),
    decreases n,
{
    if n > 0 {
        lemma_burst(state, (n - 1) as nat);
    }
}

/// A request that arrives when as many are in flight as may be is rejected,
/// nothing is kept of it, and the answer it is owed has status 503.
pub proof fn lemma_full_admission_rejects(state: AdmissionView)
    requires
        state.in_flight >= state.limit,
    ensures
        arrive(state) == (state, false),
        ServeError::Overloaded.code() == 503,
{
}

/// The count that requests pass on their way in and out.
pub struct Admission {
    limit: usize,
    in_flight: usize,
}

impl View for Admission {
    type V = AdmissionView;

    closed spec fn view(&self) -> AdmissionView {
        AdmissionView { limit: self.limit as nat, in_flight: self.in_flight as nat }
    }
}

impl Admission {
    #[verifier::type_invariant]
    spec fn within_limit(self) -> bool {
        self.in_flight <= self.limit
    }

    /// An admission that lets at most `limit` requests be in flight, with none in
    /// flight yet.
    pub fn new(limit: usize) -> (admission: Admission)
        ensures
            admission@ == (AdmissionView { limit: limit as nat, in_flight: 0 }),
    {
        Admission { limit, in_flight: 0 }
    }

    /// The bound.
    pub fn limit(&self) -> (limit: usize)
        ensures
            limit == self@.limit,
    {
        self.limit
    }

    /// The number of requests in flight, never more than the bound.
    pub fn in_flight(&self) -> (count: usize)
        ensures
            count == self@.in_flight,
            count <= self@.limit,
    {
        proof {
            use_type_invariant(self);
        }
        self.in_flight
    }

    /// A request arrives. It is admitted or rejected at once.
    pub fn try_admit(&mut self) -> (outcome: Result<(), ServeError>)
        ensures
            final(self)@ == arrive(old(self)@).0,
            outcome is Ok == arrive(old(self)@).1,
            outcome matches Err(e) ==> e == ServeError::Overloaded,
    {
        proof {
            use_type_invariant(&*self);
        }
        if self.in_flight < self.limit {
            self.in_flight = self.in_flight + 1;
            Ok(())
        } else {
            Err(ServeError::Overloaded)
        }
    }

    /// An admitted request is done.
    pub fn release(&mut self)
        ensures
            final(self)@ == leave(old(self)@),
    {
        proof {
            use_type_invariant(&*self);
        }
        if self.in_flight > 0 {
            self.in_flight = self.in_flight - 1;
        }
    }
}

} // verus!
