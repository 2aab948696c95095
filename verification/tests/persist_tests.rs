use emojiopticon::persist::{decode_frequencies, encode_frequencies};
use emojiopticon::store::FrequencyData;

#[test]
fn one_entry_encodes_as_fixed_width_fields() {
    let mut store = FrequencyData::new();
    store.increment("\u{1F680}".to_string());
    store.increment("\u{1F680}".to_string());
    let text = encode_frequencies(&store);
    assert_eq!(text, "00000000000000000001 00000000000000000002 \u{1F680}\n");
}

#[test]
fn round_trip_reproduces_the_mapping() {
    let mut store = FrequencyData::new();
    for _ in 0..5 {
        store.increment("\u{1F389}".to_string());
    }
    store.increment("\u{1F680}".to_string());
    store.increment("\u{1F468}\u{200D}\u{1F469}\u{200D}\u{1F467}".to_string());
    let text = encode_frequencies(&store);
    let loaded = decode_frequencies(&text).expect("a saved aggregate loads");
    let mut reloaded = FrequencyData::new();
    reloaded.replace(loaded);
    assert_eq!(reloaded.count(&"\u{1F389}".to_string()), 5);
    assert_eq!(reloaded.count(&"\u{1F680}".to_string()), 1);
    assert_eq!(
        reloaded.count(&"\u{1F468}\u{200D}\u{1F469}\u{200D}\u{1F467}".to_string()),
        1
    );
    assert_eq!(reloaded.snapshot().len(), 3);
}

#[test]
fn empty_store_round_trips() {
    let store = FrequencyData::new();
    let text = encode_frequencies(&store);
    assert_eq!(text, "");
    let loaded = decode_frequencies(&text).expect("an empty aggregate loads");
    assert_eq!(loaded.len(), 0);
}

#[test]
fn corrupt_text_loads_nothing() {
    assert!(decode_frequencies("not an aggregate").is_none());
    assert!(decode_frequencies("0000000000000000000x 00000000000000000002 a\n").is_none());
    // a truncated tail spoils the whole file
    let mut store = FrequencyData::new();
    store.increment("\u{1F680}".to_string());
    let mut text = encode_frequencies(&store);
    text.pop();
    assert!(decode_frequencies(&text).is_none());
}

#[test]
fn duplicate_keys_load_nothing() {
    let line = format!("{:020} {:020} {}\n", 1, 5, "\u{1F680}");
    let twice = format!("{}{}", line, line);
    assert!(decode_frequencies(&line).is_some());
    assert!(decode_frequencies(&twice).is_none());
}

#[test]
fn wrong_separator_loads_nothing() {
    let line = format!("{:020}x{:020} {}\n", 1, 5, "\u{1F680}");
    assert!(decode_frequencies(&line).is_none());
}
