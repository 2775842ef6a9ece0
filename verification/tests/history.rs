use humidity_core::historical::Historical;
use humidity_core::sample::{SampleResult, Summary};
use humidity_core::sensors::Hygrometer;
use humidity_core::serde;

fn record(n: u8) -> Summary {
    Summary { n, avg: 1000 + n as u16, min: 900, max: 1100, hygrometer: Hygrometer::HW390 }
}

fn drain<const SIZE: usize>(history: &Historical<SIZE, Summary>) -> Vec<Summary> {
    let mut syncer = history.sync();
    let mut records = Vec::new();
    loop {
        let mut out = [0u8; 8];
        let n = syncer.write(&mut out).unwrap();
        if n == 0 {
            return records;
        }
        records.push(serde::deserialize::<Summary>(&out[..n]).unwrap());
    }
}

#[test]
fn empty_history_is_exhausted_at_once() {
    let history: Historical<3, Summary> = Historical::new();
    let mut syncer = history.sync();
    let mut out = [0x77u8; 8];
    assert_eq!(syncer.write(&mut out), Ok(0));
    assert_eq!(syncer.write(&mut out), Ok(0));
    assert_eq!(out, [0x77u8; 8]);
    let history: Historical<3, Summary> = Historical::default();
    assert_eq!(drain(&history), vec![]);
}

#[test]
fn history_before_the_first_wrap() {
    let mut history: Historical<3, Summary> = Historical::new();
    history.store(record(1));
    assert_eq!(drain(&history), vec![record(1)]);
    history.store(record(2));
    assert_eq!(drain(&history), vec![record(1), record(2)]);
    history.store(record(3));
    assert_eq!(drain(&history), vec![record(1), record(2), record(3)]);
}

#[test]
fn ring_keeps_the_three_newest_of_four() {
    let (a, b, c, d) = (record(1), record(2), record(3), record(4));
    let mut history: Historical<3, Summary> = Historical::new();
    history.store(a);
    history.store(b);
    history.store(c);
    history.store(d);

    let mut syncer = history.sync();
    let mut out = [0u8; 8];
    assert_eq!(syncer.write(&mut out), Ok(8));
    assert_eq!(serde::deserialize::<Summary>(&out), Ok(b));
    assert_eq!(syncer.write(&mut out), Ok(8));
    assert_eq!(serde::deserialize::<Summary>(&out), Ok(c));
    assert_eq!(syncer.write(&mut out), Ok(8));
    assert_eq!(serde::deserialize::<Summary>(&out), Ok(d));
    assert_eq!(syncer.write(&mut out), Ok(0));
}

#[test]
fn ring_keeps_the_newest_after_many_wraps() {
    let mut history: Historical<4, Summary> = Historical::new();
    for n in 0..11u8 {
        history.store(record(n));
    }
    assert_eq!(drain(&history), vec![record(7), record(8), record(9), record(10)]);
    history.store(record(11));
    assert_eq!(drain(&history), vec![record(8), record(9), record(10), record(11)]);
}

#[test]
fn ring_of_one_slot() {
    let mut history: Historical<1, Summary> = Historical::new();
    history.store(record(1));
    history.store(record(2));
    assert_eq!(drain(&history), vec![record(2)]);
}

#[test]
fn ring_without_slots_holds_nothing() {
    let mut history: Historical<0, Summary> = Historical::new();
    history.store(record(1));
    assert_eq!(drain(&history), vec![]);
}

#[test]
fn exhausted_syncer_stays_exhausted() {
    let mut history: Historical<2, Summary> = Historical::new();
    history.store(record(1));
    history.store(record(2));
    let mut syncer = history.sync();
    let mut out = [0u8; 8];
    assert_eq!(syncer.write(&mut out), Ok(8));
    assert_eq!(syncer.write(&mut out), Ok(8));
    let last = out;
    for _ in 0..5 {
        assert_eq!(syncer.write(&mut out), Ok(0));
        assert_eq!(out, last);
    }
    let mut none: [u8; 0] = [];
    assert_eq!(syncer.write(&mut none), Ok(0));
}

#[test]
fn syncer_offers_a_record_again_after_a_failure() {
    let mut history: Historical<2, Summary> = Historical::new();
    history.store(record(1));
    history.store(record(2));
    let mut syncer = history.sync();
    let mut short = [0x42u8; 7];
    assert_eq!(syncer.write(&mut short), Err(serde::Error::ErrBufferSmall));
    assert_eq!(short, [0x42u8; 7]);
    assert_eq!(syncer.write(&mut short), Err(serde::Error::ErrBufferSmall));
    let mut out = [0u8; 9];
    assert_eq!(syncer.write(&mut out), Ok(8));
    assert_eq!(serde::deserialize::<Summary>(&out), Ok(record(1)));
    assert_eq!(syncer.write(&mut out), Ok(8));
    assert_eq!(serde::deserialize::<Summary>(&out), Ok(record(2)));
    assert_eq!(syncer.write(&mut out), Ok(0));
}

#[test]
fn syncer_is_a_snapshot() {
    let mut history: Historical<2, Summary> = Historical::new();
    history.store(record(1));
    let mut syncer = history.sync();
    history.store(record(2));
    history.store(record(3));
    let mut out = [0u8; 8];
    assert_eq!(syncer.write(&mut out), Ok(8));
    assert_eq!(serde::deserialize::<Summary>(&out), Ok(record(1)));
    assert_eq!(syncer.write(&mut out), Ok(0));
    assert_eq!(drain(&history), vec![record(2), record(3)]);
}

#[test]
fn history_of_tags() {
    let mut history: Historical<2, Hygrometer> = Historical::new();
    history.store(Hygrometer::YL69);
    history.store(Hygrometer::HW390);
    history.store(Hygrometer::HW390);
    let mut syncer = history.sync();
    let mut out = [9u8; 1];
    assert_eq!(syncer.write(&mut out), Ok(1));
    assert_eq!(out, [1]);
    assert_eq!(syncer.write(&mut out), Ok(1));
    assert_eq!(out, [1]);
    assert_eq!(syncer.write(&mut out), Ok(0));
}

#[test]
fn history_of_plain_records() {
    let (a, b, c) = (
        SampleResult { avg: 10, min: 5, max: 15 },
        SampleResult { avg: 20, min: 15, max: 25 },
        SampleResult { avg: 30, min: 25, max: 35 },
    );
    let mut history: Historical<2, SampleResult> = Historical::new();
    history.store(a);
    history.store(b);
    history.store(c);
    let mut syncer = history.sync();
    let mut out = [0u8; 6];
    assert_eq!(syncer.write(&mut out), Ok(6));
    assert_eq!(serde::deserialize::<SampleResult>(&out), Ok(b));
    assert_eq!(syncer.write(&mut out), Ok(6));
    assert_eq!(serde::deserialize::<SampleResult>(&out), Ok(c));
    assert_eq!(syncer.write(&mut out), Ok(0));
}
