//! Admission of work: how much is in flight, and whether new work is still taken.

use vstd::prelude::*;

verus! {

/// Counts the work in flight and refuses new work once the server drains.
pub struct AdmissionState {
    draining: bool,
    in_flight: u64,
}

/// Stands for one piece of work in flight.
#[derive(Debug)]
pub struct AdmissionGuard {
    admitted: bool,
}

impl AdmissionState {
    /// No new work is taken.
    pub closed spec fn drains(self) -> bool {
        self.draining
    }

    /// The work in flight.
    pub closed spec fn load(self) -> u64 {
        self.in_flight
    }

    /// Whether new work is refused.
    pub fn is_draining(&self) -> (draining: bool)
        ensures
            draining == self.drains(),
    {
        self.draining
    }

    /// How much work is in flight.
    pub fn in_flight(&self) -> (load: u64)
        ensures
            load == self.load(),
    {
        self.in_flight
    }

    /// Takes a piece of work, unless the server drains.
    pub fn try_admit(&mut self) -> (guard: Option<AdmissionGuard>)
        requires
            old(self).load() < u64::MAX,
        ensures
            guard is Some == !old(self).drains(),
            final(self).drains() == old(self).drains(),
            final(self).load() == old(self).load() + (if guard is Some {
                1int
            } else {
                0
            }),
    {
        if self.draining {
            return None;
        }
        self.in_flight = self.in_flight + 1;
        Some(AdmissionGuard { admitted: true })
    }

    /// Ends a piece of work.
    pub fn release(&mut self, guard: AdmissionGuard)
        requires
            old(self).load() > 0,
        ensures
            final(self).drains() == old(self).drains(),
            final(self).load() == old(self).load() - 1,
    {
        self.in_flight = self.in_flight - 1;
    }

    /// Refuses new work from now on. Work in flight goes on.
    pub fn begin_drain(&mut self)
        ensures
            final(self).drains(),
            final(self).load() == old(self).load(),
    {
        self.draining = true;
    }
}

impl Default for AdmissionState {
    fn default() -> (state: AdmissionState)
        ensures
            !state.drains(),
            state.load() == 0,
    {
        AdmissionState { draining: false, in_flight: 0 }
    }
}

/// How far a server has drained.
#[derive(Clone, Copy, Debug, PartialEq, Eq, Structural)]
pub enum DrainState {
    InProgress,
    Complete,
}

/// The answer to a request to drain.
#[derive(Debug)]
pub struct DrainResponse {
    pub state: DrainState,
    pub in_flight_requests: u32,
    pub message: String,
}

/// The answer to a request to drain while this much work is in flight.
pub open spec fn reports_drain(response: DrainResponse, in_flight: u64) -> bool {
    &&& response.in_flight_requests == crate::state::capped(in_flight)
    &&& response.state == (if in_flight == 0 {
        DrainState::Complete
    } else {
        DrainState::InProgress
    })
    &&& response.message@ == ""@
}

/// Answers a request to drain while this much work is in flight.
pub fn drain_response(in_flight: u64) -> (response: DrainResponse)
    ensures
        reports_drain(response, in_flight),
{
    let in_flight_requests: u32 = crate::state::cap(in_flight);
    DrainResponse {
        state: if in_flight_requests == 0 {
            DrainState::Complete
        } else {
            DrainState::InProgress
        },
        in_flight_requests,
        message: "".to_string(),
    }
}

/// A drain is complete if and only if no work is in flight, and the work that is in flight is told
/// as it is counted, cut to 32 bits from above.
pub proof fn drain_ends_with_the_work(response: DrainResponse, in_flight: u64)
    requires
        reports_drain(response, in_flight),
    ensures
        response.state is Complete <==> in_flight == 0,
        response.state is InProgress <==> in_flight > 0,
        in_flight <= u32::MAX ==> response.in_flight_requests == in_flight,
        in_flight > u32::MAX ==> response.in_flight_requests == u32::MAX,
        response.message@.len() == 0,
{
    reveal_strlit("");
}

} // verus!
