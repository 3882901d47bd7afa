use arxiv_bot::extract::find_identifier;
use arxiv_bot::channel_state::{parse_channel_text, ChannelState};
use arxiv_bot::text::u64_to_string;

#[test]
fn extractor_no_match() {
    assert_eq!(find_identifier(""), None);
    assert_eq!(find_identifier("nothing to see here"), None);
    assert_eq!(find_identifier("123.4567 has three leading digits"), None);
    assert_eq!(find_identifier("1234.567 has three trailing digits"), None);
    assert_eq!(find_identifier("1234,5678 has no dot"), None);
}

#[test]
fn extractor_single_match() {
    assert_eq!(
        find_identifier("see 2301.12345 for details").as_deref(),
        Some("2301.12345")
    );
    assert_eq!(find_identifier("x 1912.0123 y").as_deref(), Some("1912.0123"));
    assert_eq!(find_identifier("2301.12345").as_deref(), Some("2301.12345"));
}

#[test]
fn extractor_leftmost() {
    assert_eq!(
        find_identifier("1111.2222 then 3333.4444").as_deref(),
        Some("1111.2222")
    );
}

#[test]
fn extractor_prefers_five_trailing_digits() {
    // Six digits after the dot: the first five still complete a match.
    assert_eq!(find_identifier("1234.567890").as_deref(), Some("1234.56789"));
}

#[test]
fn extractor_match_inside_longer_number() {
    // Five digits before the dot: the occurrence starts one later.
    assert_eq!(find_identifier("12345.6789").as_deref(), Some("2345.6789"));
}

#[test]
fn extractor_thread_title() {
    assert_eq!(
        find_identifier("discussing 1912.01234 results").as_deref(),
        Some("1912.01234")
    );
}

#[test]
fn state_add_then_contains() {
    let mut state = ChannelState::new(None);
    assert!(!state.contains(5));
    state.add(5);
    assert!(state.contains(5));
    state.add(5);
    assert!(state.contains(5));
    state.remove(5);
    assert!(!state.contains(5));
    // removing an id never added is a no-op
    state.remove(77);
    assert!(!state.contains(77));
}

#[test]
fn state_round_trip() {
    let mut state = ChannelState::new(None);
    state.add(3);
    state.add(1);
    state.add(2);
    let text = state.save();
    let reloaded = ChannelState::new(Some(&text));
    assert!(reloaded.contains(1));
    assert!(reloaded.contains(2));
    assert!(reloaded.contains(3));
    assert!(!reloaded.contains(4));
    // saving again renders the same set
    assert_eq!(reloaded.save(), text);
}

#[test]
fn state_round_trip_empty() {
    let state = ChannelState::new(None);
    let text = state.save();
    assert_eq!(text, "[]");
    let reloaded = ChannelState::new(Some(&text));
    assert!(!reloaded.contains(0));
}

#[test]
fn state_missing_file_is_empty() {
    let state = ChannelState::new(None);
    assert!(!state.contains(1));
}

#[test]
fn state_corrupt_file_is_empty() {
    for bad in [
        "not json",
        "{\"a\": 1}",
        "[1, 2",
        "[true]",
        "[1.5]",
        "[-3]",
        "[1 2]",
        "[01]",
        "[1,]",
        "[,1]",
        "[] trailing",
    ] {
        let state = ChannelState::new(Some(bad));
        assert!(!state.contains(1), "content {:?} must load as empty", bad);
    }
}

#[test]
fn state_duplicate_entries_collapse() {
    let state = ChannelState::new(Some("[7,7,8]"));
    assert!(state.contains(7));
    assert!(state.contains(8));
    assert_eq!(state.save(), "[7,8]");
}

#[test]
fn parse_accepts_whitespace() {
    let ids = parse_channel_text(" [ 1 ,\t2 ,\n30 ] ").expect("well-formed");
    assert_eq!(ids, vec![1, 2, 30]);
}

#[test]
fn parse_bounds() {
    assert_eq!(
        parse_channel_text("[18446744073709551615]").expect("fits"),
        vec![u64::MAX]
    );
    assert_eq!(parse_channel_text("[18446744073709551616]"), None);
    assert_eq!(parse_channel_text("[0]").expect("zero"), vec![0]);
}

#[test]
fn decimal_rendering() {
    assert_eq!(u64_to_string(0), "0");
    assert_eq!(u64_to_string(7), "7");
    assert_eq!(u64_to_string(1234567890), "1234567890");
    assert_eq!(u64_to_string(u64::MAX), "18446744073709551615");
}
