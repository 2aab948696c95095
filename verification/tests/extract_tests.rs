use emojiopticon::extract::extract;

#[test]
fn empty_text_yields_nothing() {
    let r = extract("");
    assert_eq!(r.len(), 0);
}

#[test]
fn plain_ascii_yields_nothing() {
    let r = extract("The quick brown fox jumps over the lazy dog 123!");
    assert_eq!(r.len(), 0);
}

#[test]
fn narrow_combining_clusters_are_dropped() {
    // multi-codepoint clusters, but every codepoint is under four bytes
    let r = extract("a\u{310}e\u{301}o\u{308}\u{332}");
    assert_eq!(r.len(), 0);
}

#[test]
fn wide_clusters_are_kept_in_order() {
    let r = extract("I love \u{1F389}\u{1F389} today \u{1F680}");
    assert_eq!(r, vec!["\u{1F389}", "\u{1F389}", "\u{1F680}"]);
}

#[test]
fn zwj_sequence_is_one_cluster() {
    // family emoji: three people joined by zero-width joiners
    let s = "\u{1F468}\u{200D}\u{1F469}\u{200D}\u{1F467}";
    let r = extract(s);
    assert_eq!(r, vec![s.to_string()]);
}

#[test]
fn skin_tone_modifier_stays_with_its_base() {
    let s = "ok \u{1F44D}\u{1F3FD} then";
    let r = extract(s);
    assert_eq!(r, vec!["\u{1F44D}\u{1F3FD}".to_string()]);
}

#[test]
fn mixed_text_keeps_only_wide_clusters() {
    let r = extract("x\u{1F680}y");
    assert_eq!(r, vec!["\u{1F680}"]);
}
