use humidity_core::alarm::beeps;
use humidity_core::connection::{ConnectionWait, Polled, Step, MAX_POLLS};
use humidity_core::shared::BLE_DEVICE_NAME;

#[test]
fn buzzer_thresholds() {
    assert_eq!(beeps(0), 1);
    assert_eq!(beeps(650), 1);
    assert_eq!(beeps(651), 2);
    assert_eq!(beeps(800), 2);
    assert_eq!(beeps(801), 3);
    assert_eq!(beeps(1100), 3);
    assert_eq!(beeps(1101), 10);
    assert_eq!(beeps(u32::MAX), 10);
}

#[test]
fn advertised_name() {
    assert_eq!(BLE_DEVICE_NAME, "humidity-monitor");
}

#[test]
fn wait_gives_up_at_the_fiftieth_poll() {
    assert_eq!(MAX_POLLS, 50);
    let mut wait = ConnectionWait::new();
    for _ in 0..49 {
        assert_eq!(wait.on_poll(Polled::Nothing), Step::Retry);
    }
    assert_eq!(wait.on_poll(Polled::Other), Step::GiveUp);
    assert_eq!(wait.on_poll(Polled::Nothing), Step::GiveUp);
}

#[test]
fn wait_ends_with_a_connection() {
    let mut wait = ConnectionWait::new();
    assert_eq!(wait.on_poll(Polled::Connected), Step::Connected);
    let mut wait = ConnectionWait::new();
    assert_eq!(wait.on_poll(Polled::Other), Step::Retry);
    assert_eq!(wait.on_poll(Polled::Nothing), Step::Retry);
    assert_eq!(wait.on_poll(Polled::Connected), Step::Connected);
    for _ in 0..47 {
        assert_eq!(wait.on_poll(Polled::Nothing), Step::Retry);
    }
    assert_eq!(wait.on_poll(Polled::Nothing), Step::GiveUp);
    assert_eq!(wait.on_poll(Polled::Connected), Step::Connected);
}
