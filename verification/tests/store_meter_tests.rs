use emojiopticon::ingest::process_post;
use emojiopticon::meter::ThroughputMeter;
use emojiopticon::store::FrequencyData;

#[test]
fn interleaved_increments_lose_nothing() {
    let mut store = FrequencyData::new();
    let a = "\u{1F389}".to_string();
    let b = "\u{1F680}".to_string();
    // N = 3 for a, M = 2 for b, interleaved
    store.increment(a.clone());
    store.increment(b.clone());
    store.increment(a.clone());
    store.increment(b.clone());
    store.increment(a.clone());
    assert_eq!(store.count(&a), 3);
    assert_eq!(store.count(&b), 2);
    let snap = store.snapshot();
    assert_eq!(snap.len(), 2);
}

#[test]
fn absent_cluster_counts_zero() {
    let store = FrequencyData::new();
    assert_eq!(store.count(&"\u{1F389}".to_string()), 0);
}

#[test]
fn replace_overwrites_the_whole_store() {
    let mut store = FrequencyData::new();
    store.increment("\u{1F680}".to_string());
    store.replace(vec![("\u{1F389}".to_string(), 7)]);
    assert_eq!(store.count(&"\u{1F389}".to_string()), 7);
    assert_eq!(store.count(&"\u{1F680}".to_string()), 0);
}

#[test]
fn ingesting_a_post_updates_prior_counts() {
    // prior state: three occurrences of the party popper
    let mut store = FrequencyData::new();
    let party = "\u{1F389}".to_string();
    store.increment(party.clone());
    store.increment(party.clone());
    store.increment(party.clone());
    let mut meter = ThroughputMeter::new(0);
    process_post(&mut store, &mut meter, "I love \u{1F389}\u{1F389} today \u{1F680}", 500);
    assert_eq!(store.count(&party), 5);
    assert_eq!(store.count(&"\u{1F680}".to_string()), 1);
}

#[test]
fn burst_then_quiet_publishes_once_and_stays() {
    let mut meter = ThroughputMeter::new(0);
    // 120 events within half a second of each other; the last crosses the
    // one-second boundary since the meter started
    for i in 0..119u64 {
        meter.record_event(550 + i);
    }
    assert_eq!(meter.published_value(), 0);
    meter.record_event(1049);
    assert_eq!(meter.published_value(), 120);
    // two seconds of silence: readers keep seeing the stale 120
    assert_eq!(meter.published_value(), 120);
    assert_eq!(meter.published_value(), 120);
    // the next event opens and publishes a fresh window
    meter.record_event(3049);
    assert_eq!(meter.published_value(), 1);
}

#[test]
fn quiet_window_never_resets_published() {
    let mut meter = ThroughputMeter::new(0);
    meter.record_event(1200);
    assert_eq!(meter.published_value(), 1);
    // no events: reading any number of times sees the last published value
    for _ in 0..10 {
        assert_eq!(meter.published_value(), 1);
    }
}

#[test]
fn events_within_a_window_do_not_publish() {
    let mut meter = ThroughputMeter::new(0);
    meter.record_event(100);
    meter.record_event(900);
    assert_eq!(meter.published_value(), 0);
    meter.record_event(1000);
    assert_eq!(meter.published_value(), 3);
}
