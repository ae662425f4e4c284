use witness::error::WitnessError;
use witness::transport::{
    Broadcast, Delivery, DeliveryAction, DeliveryEvent, DeliveryStatus, RetryPolicy,
};

fn unbounded() -> RetryPolicy {
    RetryPolicy { initial_delay_ms: 100, max_delay_ms: 1000, max_attempts: None }
}

fn bounded(limit: u64) -> RetryPolicy {
    RetryPolicy { initial_delay_ms: 100, max_delay_ms: 1000, max_attempts: Some(limit) }
}

#[test]
fn backoff_doubles_up_to_the_longest_wait() {
    let mut delivery = Delivery::new(unbounded());
    assert_eq!(delivery.delay_ms, 100);
    assert_eq!(delivery.failed_attempts, 0);
    assert_eq!(delivery.status, DeliveryStatus::InFlight);
    let mut waits = Vec::new();
    for _ in 0..7 {
        match delivery.on_event(DeliveryEvent::AttemptFailed) {
            DeliveryAction::Retry { after_ms } => waits.push(after_ms),
            other => panic!("unexpected action {:?}", other),
        }
    }
    assert_eq!(waits, vec![100, 200, 400, 800, 1000, 1000, 1000]);
    assert_eq!(delivery.failed_attempts, 7);
    assert_eq!(delivery.status, DeliveryStatus::InFlight);
}

#[test]
fn initial_delay_is_capped() {
    let policy = RetryPolicy { initial_delay_ms: 5000, max_delay_ms: 1000, max_attempts: None };
    let mut delivery = Delivery::new(policy);
    assert_eq!(delivery.delay_ms, 1000);
    assert_eq!(
        delivery.on_event(DeliveryEvent::AttemptFailed),
        DeliveryAction::Retry { after_ms: 1000 }
    );
    let huge = RetryPolicy { initial_delay_ms: u64::MAX, max_delay_ms: u64::MAX, max_attempts: None };
    let mut delivery = Delivery::new(huge);
    assert_eq!(
        delivery.on_event(DeliveryEvent::AttemptFailed),
        DeliveryAction::Retry { after_ms: u64::MAX }
    );
    assert_eq!(delivery.delay_ms, u64::MAX);
}

#[test]
fn bounded_policy_gives_up() {
    let mut delivery = Delivery::new(bounded(3));
    assert_eq!(
        delivery.on_event(DeliveryEvent::AttemptFailed),
        DeliveryAction::Retry { after_ms: 100 }
    );
    assert_eq!(
        delivery.on_event(DeliveryEvent::AttemptFailed),
        DeliveryAction::Retry { after_ms: 200 }
    );
    assert_eq!(delivery.on_event(DeliveryEvent::AttemptFailed), DeliveryAction::GiveUp);
    assert_eq!(delivery.status, DeliveryStatus::Failed);
    assert_eq!(delivery.failed_attempts, 3);
    assert_eq!(delivery.on_event(DeliveryEvent::AttemptFailed), DeliveryAction::Stop);
    assert_eq!(delivery.on_event(DeliveryEvent::Acknowledged), DeliveryAction::Stop);
    assert_eq!(delivery.status, DeliveryStatus::Failed);
    assert_eq!(delivery.failed_attempts, 3);

    let mut once = Delivery::new(bounded(1));
    assert_eq!(once.on_event(DeliveryEvent::AttemptFailed), DeliveryAction::GiveUp);
    let mut never = Delivery::new(bounded(0));
    assert_eq!(never.on_event(DeliveryEvent::AttemptFailed), DeliveryAction::GiveUp);
}

#[test]
fn acknowledgment_and_cancellation_end_a_delivery() {
    let mut delivered = Delivery::new(unbounded());
    delivered.on_event(DeliveryEvent::AttemptFailed);
    assert_eq!(delivered.on_event(DeliveryEvent::Acknowledged), DeliveryAction::Resolve);
    assert_eq!(delivered.status, DeliveryStatus::Delivered);
    assert_eq!(delivered.on_event(DeliveryEvent::Acknowledged), DeliveryAction::Stop);
    assert_eq!(delivered.on_event(DeliveryEvent::Cancelled), DeliveryAction::Stop);
    assert_eq!(delivered.status, DeliveryStatus::Delivered);

    let mut cancelled = Delivery::new(unbounded());
    assert_eq!(cancelled.on_event(DeliveryEvent::Cancelled), DeliveryAction::Stop);
    assert_eq!(cancelled.status, DeliveryStatus::Cancelled);
    assert_eq!(cancelled.on_event(DeliveryEvent::AttemptFailed), DeliveryAction::Stop);
    assert_eq!(cancelled.on_event(DeliveryEvent::Acknowledged), DeliveryAction::Stop);
    assert_eq!(cancelled.status, DeliveryStatus::Cancelled);
    assert_eq!(cancelled.failed_attempts, 0);
}

#[test]
fn broadcast_destinations_are_independent() {
    let mut broadcast = Broadcast::new(bounded(2), 4);
    assert_eq!(broadcast.deliveries.len(), 4);
    assert!(!broadcast.finished());
    assert_eq!(
        broadcast.on_event(1, DeliveryEvent::AttemptFailed),
        DeliveryAction::Retry { after_ms: 100 }
    );
    assert_eq!(broadcast.on_event(1, DeliveryEvent::AttemptFailed), DeliveryAction::GiveUp);
    assert_eq!(broadcast.on_event(2, DeliveryEvent::Cancelled), DeliveryAction::Stop);
    assert_eq!(broadcast.on_event(0, DeliveryEvent::Acknowledged), DeliveryAction::Resolve);
    assert_eq!(broadcast.on_event(7, DeliveryEvent::Acknowledged), DeliveryAction::Stop);
    let statuses: Vec<DeliveryStatus> = broadcast.deliveries.iter().map(|d| d.status).collect();
    assert_eq!(
        statuses,
        vec![
            DeliveryStatus::Delivered,
            DeliveryStatus::Failed,
            DeliveryStatus::Cancelled,
            DeliveryStatus::InFlight,
        ]
    );
    assert_eq!(broadcast.deliveries[3], Delivery::new(bounded(2)));
    assert!(!broadcast.finished());
    assert_eq!(broadcast.on_event(3, DeliveryEvent::Acknowledged), DeliveryAction::Resolve);
    assert!(broadcast.finished());
    assert!(Broadcast::new(unbounded(), 0).finished());
}

#[test]
fn outcome_of_a_delivery() {
    let mut delivery = Delivery::new(bounded(1));
    assert_eq!(delivery.outcome(), None);
    delivery.on_event(DeliveryEvent::AttemptFailed);
    assert_eq!(delivery.outcome(), Some(Err(WitnessError::DeliveryFailure)));

    let mut delivered = Delivery::new(bounded(1));
    delivered.on_event(DeliveryEvent::Acknowledged);
    assert_eq!(delivered.outcome(), Some(Ok(())));

    let mut cancelled = Delivery::new(bounded(1));
    cancelled.on_event(DeliveryEvent::Cancelled);
    assert_eq!(cancelled.outcome(), None);
}
