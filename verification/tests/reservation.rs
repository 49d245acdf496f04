use tavily_hikari::reservation::{ReservationCleanupStep, UpstreamUsageAttemptReservation, reservation_cleanup_step};

#[test]
fn reservation_is_armed_until_disarmed() {
    let mut reservation = UpstreamUsageAttemptReservation::new("store", "res-1".to_string());
    assert_eq!(reservation.armed_reservation_id(), Some("res-1"));
    assert_eq!(*reservation.key_store(), "store");
    reservation.disarm();
    assert_eq!(reservation.armed_reservation_id(), None);
}

#[test]
fn cleanup_takes_the_reservation_once() {
    let mut reservation = UpstreamUsageAttemptReservation::new((), "res-2".to_string());
    assert_eq!(reservation.take_for_cleanup().as_deref(), Some("res-2"));
    assert_eq!(reservation.take_for_cleanup(), None);
}

#[test]
fn cleanup_retries_four_times_then_abandons() {
    let mut attempt = 0;
    let mut delays = Vec::new();
    loop {
        match reservation_cleanup_step(attempt, false) {
            ReservationCleanupStep::RetryAfter { delay_ms, next_attempt } => {
                delays.push(delay_ms);
                attempt = next_attempt;
            }
            ReservationCleanupStep::Abandon => break,
            ReservationCleanupStep::Released => unreachable!(),
        }
    }
    assert_eq!(delays, vec![20, 50, 100, 200]);
    assert_eq!(attempt, 4);
    assert_eq!(reservation_cleanup_step(2, true), ReservationCleanupStep::Released);
}
