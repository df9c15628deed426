use wifi_rssi::scan::{
    first_available_index, is_whitespace_char, parse_scan_dump, pick_available_network,
    pick_scanned_network, raw_ssid_matches, signal_tokens, text_chars, AvailableNetwork,
    ScannedNetwork,
};

/// What the caller does with each token: parse it as a float and keep the whole dBm.
fn readings(dump: &str) -> Vec<Option<i32>> {
    signal_tokens(dump).iter().map(|t| t.parse::<f32>().ok().map(|v| v as i32)).collect()
}

const DUMP: &str = "BSS 11:22:33:44:55:66(on wlan0)\n\
\tfreq: 2412\n\
\tsignal: -71.00 dBm\n\
\tSSID: neighbour\n\
BSS aa:bb:cc:dd:ee:ff(on wlan0) -- associated\n\
\tfreq: 5180\n\
\tsignal: -48.00 dBm\n\
\tSSID: home\n\
BSS 99:88:77:66:55:44(on wlan0)\n\
\tsignal: -80.00 dBm\n\
\tSSID: other\n";

#[test]
fn the_target_is_found_at_the_next_bss_line() {
    let signals = readings(DUMP);
    assert_eq!(signal_tokens(DUMP), vec!["-71.00", "-48.00", "-80.00"]);
    let r = parse_scan_dump(DUMP, "home", &signals).unwrap();
    assert_eq!(r.ssid, "home");
    assert_eq!(r.signal_strength, -48);
}

#[test]
fn the_last_section_is_checked_at_the_end() {
    let signals = readings(DUMP);
    let r = parse_scan_dump(DUMP, "other", &signals).unwrap();
    assert_eq!(r.signal_strength, -80);
}

#[test]
fn an_absent_target_is_not_found() {
    let signals = readings(DUMP);
    assert!(parse_scan_dump(DUMP, "cafe", &signals).is_none());
    assert!(parse_scan_dump("", "cafe", &[].to_vec()).is_none());
}

#[test]
fn a_section_without_a_signal_is_not_reported() {
    let dump = "BSS 1\n\tSSID: home\nBSS 2\n\tsignal: -50.00 dBm\n\tSSID: x\n";
    let signals = readings(dump);
    assert!(parse_scan_dump(dump, "home", &signals).is_none());
}

#[test]
fn a_signal_that_does_not_parse_keeps_the_previous_one() {
    let dump = "\tsignal: -50.00 dBm\n\tsignal: bogus dBm\n\tSSID: home\r\n";
    let signals = readings(dump);
    assert_eq!(signals, vec![Some(-50), None]);
    assert_eq!(parse_scan_dump(dump, "home", &signals).unwrap().signal_strength, -50);
}

#[test]
fn only_the_first_word_of_an_ssid_is_kept() {
    let dump = "\tSSID: my home\n\tsignal: -50.00 dBm\n";
    let signals = readings(dump);
    assert!(parse_scan_dump(dump, "my home", &signals).is_none());
    assert!(parse_scan_dump(dump, "my", &signals).is_some());
}

#[test]
fn an_ssid_line_without_a_word_keeps_the_ssid() {
    let dump = "\tSSID: home\n\tSSID:\n\tsignal: -30.00 dBm\n";
    let signals = readings(dump);
    assert_eq!(parse_scan_dump(dump, "home", &signals).unwrap().signal_strength, -30);
}

#[test]
fn fractional_readings_are_cut_towards_zero() {
    let dump = "\tSSID: home\n\tsignal: -47.90 dBm\n";
    let signals = readings(dump);
    assert_eq!(parse_scan_dump(dump, "home", &signals).unwrap().signal_strength, -47);
}

#[test]
fn unicode_whitespace_separates_words() {
    assert!(is_whitespace_char('\u{3000}'));
    assert!(is_whitespace_char('\t'));
    assert!(!is_whitespace_char('x'));
    let dump = "\u{3000}SSID:\u{00A0}home\n signal: -10 dBm";
    let signals = readings(dump);
    assert_eq!(parse_scan_dump(dump, "home", &signals).unwrap().signal_strength, -10);
}

#[test]
fn text_chars_keeps_every_character() {
    assert_eq!(text_chars("aé\n"), vec!['a', 'é', '\n']);
}

fn raw(ssid: &[u8], quality: u32) -> AvailableNetwork {
    let mut buf = vec![0u8; 32];
    buf[..ssid.len()].copy_from_slice(ssid);
    AvailableNetwork { ssid: buf, length: ssid.len(), quality }
}

#[test]
fn a_windows_network_matches_by_its_raw_ssid() {
    let nets = vec![raw(b"cafe", 90), raw(b"home", 70), raw(b"home", 20)];
    assert_eq!(first_available_index(&nets, "home"), Some(1));
    let r = pick_available_network(&nets, "home").unwrap();
    assert_eq!(r.ssid, "home");
    assert_eq!(r.signal_strength, -30);
    assert!(pick_available_network(&nets, "hom").is_none());
    assert!(pick_available_network(&vec![], "home").is_none());
}

#[test]
fn a_windows_ssid_length_must_be_between_one_and_thirty_two() {
    let mut n = raw(b"home", 70);
    n.length = 0;
    assert!(!raw_ssid_matches(&n.ssid, 0, ""));
    assert!(!raw_ssid_matches(&n.ssid, 33, "home"));
    assert!(!raw_ssid_matches(&n.ssid, 3, "home"));
    assert!(raw_ssid_matches(&n.ssid, 4, "home"));
}

#[test]
fn a_windows_ssid_that_is_not_utf8_never_matches() {
    let nets = vec![raw(&[0xff], 70)];
    assert!(pick_available_network(&nets, "\u{ff}").is_none());
    let nets = vec![raw("é".as_bytes(), 100)];
    assert_eq!(pick_available_network(&nets, "é").unwrap().signal_strength, 0);
}

#[test]
fn the_scanned_list_gives_the_first_network_with_the_target_ssid() {
    let list = vec![
        ScannedNetwork { ssid: "a".to_string(), signal_level: -60 },
        ScannedNetwork { ssid: "home".to_string(), signal_level: -55 },
        ScannedNetwork { ssid: "home".to_string(), signal_level: -20 },
    ];
    let r = pick_scanned_network(Some(list), "home").unwrap();
    assert_eq!((r.ssid.as_str(), r.signal_strength), ("home", -55));
}

#[test]
fn a_failed_or_fruitless_scan_finds_nothing() {
    assert!(pick_scanned_network(None, "test_ssid").is_none());
    assert!(pick_scanned_network(Some(vec![]), "test_ssid").is_none());
    let list = vec![ScannedNetwork { ssid: "other".to_string(), signal_level: -50 }];
    assert!(pick_scanned_network(Some(list), "test_ssid").is_none());
}
