use wifi_failover::reader::{parse_wifi_info, ReadError};
use wifi_failover::text::{parse_signal_level, split_char, trim_str};

fn sample_report() -> String {
    let lines = [
        " -62",
        " -95",
        " -92",
        " 0",
        " running",
        " station",
        " 270",
        " 300",
        " 0",
        " open",
        " wpa2-psk",
        " a0:b1:c2:d3:e4:f5",
        " Home",
        " 5",
        " 800 ns",
        " 2",
        " 36,1",
    ];
    let mut out = String::new();
    for line in lines.iter() {
        out.push_str(line);
        out.push('\n');
    }
    out
}

#[test]
fn parses_full_report() {
    let report = sample_report();
    let info = parse_wifi_info(&report).unwrap();
    assert_eq!(info.ctl_rssi, "-62");
    assert_eq!(info.ext_rssi, "-95");
    assert_eq!(info.ctl_noise, "-92");
    assert_eq!(info.ext_noise, "0");
    assert_eq!(info.state, "running");
    assert_eq!(info.op_mode, "station");
    assert_eq!(info.last_tx_rate, "270");
    assert_eq!(info.max_rate, "300");
    assert_eq!(info.last_assoc_status, "0");
    assert_eq!(info.auth, "open");
    assert_eq!(info.link_auth, "wpa2-psk");
    assert_eq!(info.bssid, Some(String::from("a0:b1:c2:d3:e4:f5")));
    assert_eq!(info.ssid, "Home");
    assert_eq!(info.mcs, "5");
    assert_eq!(info.guard_interval, "800 ns");
    assert_eq!(info.nss, "2");
    assert_eq!(info.channel, vec![String::from("36"), String::from("1")]);
}

#[test]
fn empty_bssid_line_is_absent_not_an_error() {
    let report = sample_report().replace(" a0:b1:c2:d3:e4:f5\n", "\n");
    let info = parse_wifi_info(&report).unwrap();
    assert_eq!(info.bssid, None);
    assert_eq!(info.ssid, "Home");
}

#[test]
fn crlf_bssid_line_is_absent() {
    let report = sample_report().replace(" a0:b1:c2:d3:e4:f5\n", "\r\n");
    let info = parse_wifi_info(&report).unwrap();
    assert_eq!(info.bssid, None);
    assert_eq!(info.ssid, "Home");
}

#[test]
fn whitespace_bssid_line_is_present_but_blank() {
    let report = sample_report().replace(" a0:b1:c2:d3:e4:f5\n", " \n");
    let info = parse_wifi_info(&report).unwrap();
    assert_eq!(info.bssid, Some(String::new()));
    assert_eq!(info.ssid, "Home");
}

#[test]
fn crlf_report_parses_like_the_bare_newline_one() {
    let report = sample_report().replace('\n', "\r\n");
    let info = parse_wifi_info(&report).unwrap();
    assert_eq!(info.ctl_rssi, "-62");
    assert_eq!(info.bssid, Some(String::from("a0:b1:c2:d3:e4:f5")));
    assert_eq!(info.ssid, "Home");
    assert_eq!(info.channel, vec![String::from("36"), String::from("1")]);
}

#[test]
fn short_report_is_malformed() {
    let report = "-62\n-95\nHome\n";
    assert!(matches!(
        parse_wifi_info(report),
        Err(ReadError::MalformedOutput)
    ));
}

#[test]
fn empty_report_is_malformed() {
    assert!(matches!(parse_wifi_info(""), Err(ReadError::MalformedOutput)));
}

#[test]
fn report_without_trailing_newline_parses() {
    let report = sample_report();
    let trimmed = report.trim_end_matches('\n');
    let info = parse_wifi_info(trimmed).unwrap();
    assert_eq!(info.channel, vec![String::from("36"), String::from("1")]);
}

#[test]
fn single_channel_is_one_piece() {
    let report = sample_report().replace(" 36,1\n", " 149\n");
    let info = parse_wifi_info(&report).unwrap();
    assert_eq!(info.channel, vec![String::from("149")]);
}

#[test]
fn trim_strips_blanks_on_both_ends() {
    assert_eq!(trim_str("  -62 \t"), "-62");
    assert_eq!(trim_str("Home"), "Home");
    assert_eq!(trim_str(" \t "), "");
    assert_eq!(trim_str("a b"), "a b");
}

#[test]
fn trim_strips_unicode_whitespace() {
    assert_eq!(trim_str("\u{00A0}Home\u{3000}"), "Home");
    assert_eq!(trim_str("\u{2003}\u{2028}x"), "x");
    assert_eq!(trim_str(" -62\r"), "-62");
}

#[test]
fn split_keeps_empty_pieces() {
    assert_eq!(
        split_char("a,,b", ','),
        vec![String::from("a"), String::new(), String::from("b")]
    );
    assert_eq!(split_char("", ','), vec![String::new()]);
    assert_eq!(split_char("x", ','), vec![String::from("x")]);
}

#[test]
fn parses_signal_levels() {
    assert_eq!(parse_signal_level("-75"), Some(-75));
    assert_eq!(parse_signal_level("0"), Some(0));
    assert_eq!(parse_signal_level("42"), Some(42));
    assert_eq!(parse_signal_level("+42"), Some(42));
    assert_eq!(parse_signal_level("-2147483648"), Some(i32::MIN));
    assert_eq!(parse_signal_level("2147483647"), Some(i32::MAX));
}

#[test]
fn rejects_non_numeric_signal_levels() {
    assert_eq!(parse_signal_level(""), None);
    assert_eq!(parse_signal_level("-"), None);
    assert_eq!(parse_signal_level("+"), None);
    assert_eq!(parse_signal_level("+-3"), None);
    assert_eq!(parse_signal_level("12x"), None);
    assert_eq!(parse_signal_level("abc"), None);
    assert_eq!(parse_signal_level(" 5"), None);
    assert_eq!(parse_signal_level("2147483648"), None);
    assert_eq!(parse_signal_level("-2147483649"), None);
    assert_eq!(parse_signal_level("99999999999999999999999"), None);
}
