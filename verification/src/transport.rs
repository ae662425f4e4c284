//! The decisions of the reliable sender: when to try again, when to give
//! up, and what a cancellation stops. Sending and waiting are the caller's.

use crate::error::WitnessError;
use vstd::prelude::*;

verus! {

/// How often and how fast a message is sent again.
#[derive(Clone, Copy, Debug, PartialEq, Eq)]
pub struct RetryPolicy {
    /// The wait before the second attempt, in milliseconds.
    pub initial_delay_ms: u64,
    /// The longest wait between two attempts, in milliseconds.
    pub max_delay_ms: u64,
    /// The number of failed attempts after which delivery fails; `None`
    /// where the sender never gives up.
    pub max_attempts: Option<u64>,
}

/// Where the delivery of one message to one destination stands.
#[derive(Clone, Copy, Debug, PartialEq, Eq, Structural)]
pub enum DeliveryStatus {
    /// Attempts are still being made.
    InFlight,
    /// The destination has acknowledged the message.
    Delivered,
    /// The retry policy is exhausted.
    Failed,
    /// The caller has dropped its handle.
    Cancelled,
}

/// What happened to a delivery.
#[derive(Clone, Copy, Debug, PartialEq, Eq, Structural)]
pub enum DeliveryEvent {
    /// The destination replied.
    Acknowledged,
    /// An attempt did not get through.
    AttemptFailed,
    /// The caller dropped its handle.
    Cancelled,
}

/// What the caller does next for a delivery.
#[derive(Clone, Copy, Debug, PartialEq, Eq, Structural)]
pub enum DeliveryAction {
    /// Wait this many milliseconds and send again.
    Retry { after_ms: u64 },
    /// Hand the reply to the holder of the handle.
    Resolve,
    /// Report a delivery failure to the holder of the handle.
    GiveUp,
    /// Do nothing more for this destination.
    Stop,
}

/// The delivery of one message to one destination.
#[derive(Clone, Copy, Debug, PartialEq, Eq)]
pub struct Delivery {
    pub policy: RetryPolicy,
    pub failed_attempts: u64,
    pub delay_ms: u64,
    pub status: DeliveryStatus,
}

/// The smaller of two numbers.
pub open spec fn smaller(a: int, b: int) -> int {
    if a <= b {
        a
    } else {
        b
    }
}

/// The wait after `failures` failed attempts: the initial delay doubled once
/// for each failure after the first, and never more than the longest wait.
pub open spec fn backoff(policy: RetryPolicy, failures: nat) -> int
    decreases failures,
{
    if failures <= 1 {
        smaller(policy.initial_delay_ms as int, policy.max_delay_ms as int)
    } else {
        smaller(2 * backoff(policy, (failures - 1) as nat), policy.max_delay_ms as int)
    }
}

impl Delivery {
    /// Whether the delivery has ended.
    pub open spec fn ended(self) -> bool {
        self.status != DeliveryStatus::InFlight
    }

    /// The invariant of a delivery in flight: its next wait is the backoff
    /// for one more failure than it has seen, and the failures seen have not
    /// exhausted the policy.
    pub open spec fn wf(self) -> bool {
        self.status == DeliveryStatus::InFlight ==> {
            &&& self.delay_ms == backoff(self.policy, self.failed_attempts as nat + 1)
            &&& match self.policy.max_attempts {
                Some(limit) => self.failed_attempts < limit || self.failed_attempts == 0,
                None => true,
            }
        }
    }

    /// The delivery after `event`, and what the caller does next.
    ///
    /// An ended delivery stays as it is. An acknowledgment resolves the
    /// handle and a cancellation stops the attempts. A failed attempt is
    /// counted; where that exhausts the policy the delivery fails, else the
    /// caller waits for the current backoff and sends again.
    pub open spec fn next(self, event: DeliveryEvent) -> (Delivery, DeliveryAction) {
        if self.ended() {
            (self, DeliveryAction::Stop)
        } else {
            match event {
                DeliveryEvent::Acknowledged => (
                    Delivery { status: DeliveryStatus::Delivered, ..self },
                    DeliveryAction::Resolve,
                ),
                DeliveryEvent::Cancelled => (
                    Delivery { status: DeliveryStatus::Cancelled, ..self },
                    DeliveryAction::Stop,
                ),
                DeliveryEvent::AttemptFailed => {
                    let failures = if self.failed_attempts == u64::MAX {
                        u64::MAX
                    } else {
                        (self.failed_attempts + 1) as u64
                    };
                    if self.policy.max_attempts is Some && failures
                        >= self.policy.max_attempts->0 {
                        (
                            Delivery {
                                failed_attempts: failures,
                                status: DeliveryStatus::Failed,
                                ..self
                            },
                            DeliveryAction::GiveUp,
                        )
                    } else {
                        (
                            Delivery {
                                failed_attempts: failures,
                                delay_ms: smaller(
                                    2 * self.delay_ms,
                                    self.policy.max_delay_ms as int,
                                ) as u64,
                                ..self
                            },
                            DeliveryAction::Retry { after_ms: self.delay_ms },
                        )
                    }
                },
            }
        }
    }

    /// A delivery that starts with its first attempt.
    pub fn new(policy: RetryPolicy) -> (delivery: Delivery)
        ensures
            delivery.policy == policy,
            delivery.failed_attempts == 0,
            delivery.status == DeliveryStatus::InFlight,
            delivery.delay_ms == backoff(policy, 1),
            delivery.wf(),
    {
        let delay_ms = if policy.initial_delay_ms <= policy.max_delay_ms {
            policy.initial_delay_ms
        } else {
            policy.max_delay_ms
        };
        Delivery { policy, failed_attempts: 0, delay_ms, status: DeliveryStatus::InFlight }
    }

    /// What the holder of the handle is told once the delivery has ended:
    /// success after an acknowledgment, a delivery failure after the policy
    /// was exhausted, and nothing while attempts go on or after a
    /// cancellation.
    pub fn outcome(&self) -> (outcome: Option<Result<(), WitnessError>>)
        ensures
            outcome == match self.status {
                DeliveryStatus::Delivered => Some(Ok::<(), WitnessError>(())),
                DeliveryStatus::Failed => Some(
                    Err::<(), WitnessError>(WitnessError::DeliveryFailure),
                ),
                _ => None,
            },
    {
        match self.status {
            DeliveryStatus::Delivered => Some(Ok(())),
            DeliveryStatus::Failed => Some(Err(WitnessError::DeliveryFailure)),
            _ => None,
        }
    }

    /// Takes an event and says what the caller does next.
    pub fn on_event(&mut self, event: DeliveryEvent) -> (action: DeliveryAction)
        ensures
            (*final(self), action) == old(self).next(event),
    {
        if !matches!(self.status, DeliveryStatus::InFlight) {
            return DeliveryAction::Stop;
        }
        match event {
            DeliveryEvent::Acknowledged => {
                self.status = DeliveryStatus::Delivered;
                DeliveryAction::Resolve
            },
            DeliveryEvent::Cancelled => {
                self.status = DeliveryStatus::Cancelled;
                DeliveryAction::Stop
            },
            DeliveryEvent::AttemptFailed => {
                let failures: u64 = if self.failed_attempts == u64::MAX {
                    u64::MAX
                } else {
                    self.failed_attempts + 1
                };
                self.failed_attempts = failures;
                let exhausted = match self.policy.max_attempts {
                    Some(limit) => failures >= limit,
                    None => false,
                };
                if exhausted {
                    self.status = DeliveryStatus::Failed;
                    DeliveryAction::GiveUp
                } else {
                    let after_ms = self.delay_ms;
                    self.delay_ms = if after_ms > self.policy.max_delay_ms / 2 {
                        self.policy.max_delay_ms
                    } else {
                        let doubled: u64 = 2 * after_ms;
                        if doubled <= self.policy.max_delay_ms {
                            doubled
                        } else {
                            self.policy.max_delay_ms
                        }
                    };
                    DeliveryAction::Retry { after_ms }
                }
            },
        }
    }
}

/// The deliveries of one message to several destinations, one for each.
pub struct Broadcast {
    pub deliveries: Vec<Delivery>,
}

impl Broadcast {
    /// A broadcast to `destinations` destinations under one policy.
    pub fn new(policy: RetryPolicy, destinations: usize) -> (broadcast: Broadcast)
        ensures
            broadcast.deliveries@.len() == destinations,
            forall|i: int|
                0 <= i < destinations ==> {
                    &&& (#[trigger] broadcast.deliveries@[i]).policy == policy
                    &&& broadcast.deliveries@[i].failed_attempts == 0
                    &&& broadcast.deliveries@[i].status == DeliveryStatus::InFlight
                    &&& broadcast.deliveries@[i].delay_ms == backoff(policy, 1)
                },
    {
        let mut deliveries: Vec<Delivery> = Vec::new();
        let mut i: usize = 0;
        while i < destinations
            invariant
                i <= destinations,
                deliveries@.len() == i,
                forall|j: int|
                    0 <= j < i ==> {
                        &&& (#[trigger] deliveries@[j]).policy == policy
                        &&& deliveries@[j].failed_attempts == 0
                        &&& deliveries@[j].status == DeliveryStatus::InFlight
                        &&& deliveries@[j].delay_ms == backoff(policy, 1)
                    },
            decreases destinations - i,
        {
            deliveries.push(Delivery::new(policy));
            i += 1;
        }
        Broadcast { deliveries }
    }

    /// Takes an event for one destination. The deliveries to the other
    /// destinations are untouched; an event for a destination that the
    /// broadcast does not have changes nothing.
    pub fn on_event(&mut self, destination: usize, event: DeliveryEvent) -> (action: DeliveryAction)
        ensures
            final(self).deliveries@.len() == old(self).deliveries@.len(),
            forall|i: int|
                0 <= i < old(self).deliveries@.len() && i != destination
                    ==> final(self).deliveries@[i] == old(self).deliveries@[i],
            destination < old(self).deliveries@.len() ==> (
                final(self).deliveries@[destination as int],
                action,
            ) == old(self).deliveries@[destination as int].next(event),
            destination >= old(self).deliveries@.len() ==> action == DeliveryAction::Stop,
    {
        if destination >= self.deliveries.len() {
            return DeliveryAction::Stop;
        }
        let mut delivery = self.deliveries[destination];
        let action = delivery.on_event(event);
        self.deliveries.set(destination, delivery);
        action
    }

    /// Whether every delivery has ended.
    pub fn finished(&self) -> (done: bool)
        ensures
            done == forall|i: int|
                0 <= i < self.deliveries@.len() ==> (#[trigger] self.deliveries@[i]).ended(),
    {
        let mut i: usize = 0;
        while i < self.deliveries.len()
            invariant
                i <= self.deliveries@.len(),
                forall|j: int| 0 <= j < i ==> (#[trigger] self.deliveries@[j]).ended(),
            decreases self.deliveries@.len() - i,
        {
            if matches!(self.deliveries[i].status, DeliveryStatus::InFlight) {
                return false;
            }
            i += 1;
        }
        true
    }
}

/// The wait between two attempts is never longer than the policy's longest.
pub proof fn lemma_backoff_bounded(policy: RetryPolicy, failures: nat)
    ensures
        0 <= backoff(policy, failures) <= policy.max_delay_ms,
        backoff(policy, failures) <= backoff(policy, failures + 1),
    decreases failures,
{
    if failures > 1 {
        lemma_backoff_bounded(policy, (failures - 1) as nat);
    }
}

/// A step keeps the invariant of a delivery, and the wait it asks for is the
/// backoff for the failures seen.
pub proof fn lemma_delivery_step(delivery: Delivery, event: DeliveryEvent)
    requires
        delivery.wf(),
        delivery.failed_attempts < u64::MAX,
    ensures
        delivery.next(event).0.wf(),
        delivery.next(event).0.policy == delivery.policy,
        match delivery.next(event).1 {
            DeliveryAction::Retry { after_ms } => after_ms == backoff(
                delivery.policy,
                delivery.failed_attempts as nat + 1,
            ) && after_ms <= delivery.policy.max_delay_ms,
            _ => true,
        },
{
    lemma_backoff_bounded(delivery.policy, delivery.failed_attempts as nat + 1);
    lemma_backoff_bounded(delivery.policy, delivery.failed_attempts as nat + 2);
}

/// An ended delivery stays ended: no event makes the sender try again, and
/// a cancellation ends a delivery in flight at once.
pub proof fn lemma_ended_is_final(delivery: Delivery, event: DeliveryEvent)
    ensures
        delivery.ended() ==> delivery.next(event) == (delivery, DeliveryAction::Stop),
        !delivery.ended() && event == DeliveryEvent::Cancelled ==> delivery.next(event).0.status
            == DeliveryStatus::Cancelled && delivery.next(event).1 == DeliveryAction::Stop,
        !delivery.ended() && event == DeliveryEvent::Acknowledged ==> delivery.next(
            event,
        ).0.status == DeliveryStatus::Delivered && delivery.next(event).1
            == DeliveryAction::Resolve,
{
}

/// Under a bounded policy delivery fails exactly at the failed attempt that
/// reaches the bound.
pub proof fn lemma_bounded_policy_gives_up(delivery: Delivery, limit: u64)
    requires
        !delivery.ended(),
        delivery.policy.max_attempts == Some(limit),
        delivery.failed_attempts < u64::MAX,
    ensures
        delivery.next(DeliveryEvent::AttemptFailed).1 == DeliveryAction::GiveUp
            <==> delivery.failed_attempts + 1 >= limit,
        delivery.next(DeliveryEvent::AttemptFailed).0.status == DeliveryStatus::Failed
            <==> delivery.failed_attempts + 1 >= limit,
{
}

} // verus!
