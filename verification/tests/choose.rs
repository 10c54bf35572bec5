use wifi_failover::network::{filter_trusted, mark_connected, WifiNetwork};
use wifi_failover::selector::select_candidate;
use wifi_failover::signal::FatalMetricError;

fn net(ssid: &str, signal: &str, connected: bool) -> WifiNetwork {
    WifiNetwork {
        ssid: String::from(ssid),
        mac: String::from("00:00:00:00:00:00"),
        security: String::from("WPA2"),
        signal_level: String::from(signal),
        channel: String::from("6"),
        connected,
    }
}

fn trusted(names: &[&str]) -> Vec<String> {
    names.iter().map(|n| String::from(*n)).collect()
}

#[test]
fn picks_numerically_strongest_candidate() {
    let nets = vec![
        net("Home", "-80", true),
        net("Cafe", "-80", false),
        net("Office", "-60", false),
        net("Garage", "-70", false),
    ];
    let t = trusted(&["Cafe", "Office", "Garage"]);
    let r = select_candidate(&nets, &t, &String::from("Home"));
    assert_eq!(r, Ok(Some(2)));
    assert_eq!(nets[2].ssid, "Office");
}

#[test]
fn ranks_numerically_not_lexicographically() {
    // As text, "-9" sorts above "-10"; numerically -9 dBm is the stronger.
    let nets = vec![net("A", "-10", false), net("B", "-9", false)];
    let t = trusted(&["A", "B"]);
    let r = select_candidate(&nets, &t, &String::from("Home"));
    assert_eq!(r, Ok(Some(1)));
}

#[test]
fn never_picks_the_active_ssid() {
    let nets = vec![net("Home", "-10", true), net("Office", "-90", false)];
    let t = trusted(&["Home", "Office"]);
    let r = select_candidate(&nets, &t, &String::from("Home"));
    assert_eq!(r, Ok(Some(1)));
}

#[test]
fn no_candidate_when_only_active_is_trusted() {
    let nets = vec![net("Home", "-80", true), net("Cafe", "-40", false)];
    let t = trusted(&["Home"]);
    let r = select_candidate(&nets, &t, &String::from("Home"));
    assert_eq!(r, Ok(None));
}

#[test]
fn no_candidate_on_empty_scan() {
    let nets: Vec<WifiNetwork> = Vec::new();
    let t = trusted(&["Office"]);
    assert_eq!(select_candidate(&nets, &t, &String::from("Home")), Ok(None));
}

#[test]
fn no_candidate_when_nothing_visible_is_trusted() {
    let nets = vec![net("Cafe", "-40", false), net("Hotel", "-50", false)];
    let t = trusted(&["Office"]);
    assert_eq!(select_candidate(&nets, &t, &String::from("Home")), Ok(None));
}

#[test]
fn tie_prefers_first_in_scan_order() {
    let nets = vec![
        net("Cafe", "-60", false),
        net("Office", "-60", false),
    ];
    let t = trusted(&["Cafe", "Office"]);
    assert_eq!(
        select_candidate(&nets, &t, &String::from("Home")),
        Ok(Some(0))
    );
}

#[test]
fn non_numeric_candidate_signal_is_fatal() {
    let nets = vec![net("Office", "strong", false)];
    let t = trusted(&["Office"]);
    assert_eq!(
        select_candidate(&nets, &t, &String::from("Home")),
        Err(FatalMetricError)
    );
}

#[test]
fn non_numeric_signal_outside_candidates_is_ignored() {
    let nets = vec![net("Cafe", "junk", false), net("Office", "-60", false)];
    let t = trusted(&["Office"]);
    assert_eq!(
        select_candidate(&nets, &t, &String::from("Home")),
        Ok(Some(1))
    );
}

#[test]
fn filter_keeps_trusted_non_active_in_scan_order() {
    let nets = vec![
        net("Home", "-80", true),
        net("Cafe", "-40", false),
        net("Office", "-60", false),
        net("Hotel", "-50", false),
    ];
    let t = trusted(&["Home", "Office", "Cafe"]);
    let kept = filter_trusted(&nets, &t, &String::from("Home"));
    let names: Vec<&str> = kept.iter().map(|w| w.ssid.as_str()).collect();
    assert_eq!(names, vec!["Cafe", "Office"]);
}

#[test]
fn mark_connected_flags_the_active_association() {
    let nets = vec![
        net("Home", "-62", false),
        net("Home", "-62", false),
        net("Office", "-60", false),
    ];
    let mut nets = nets;
    nets[1].channel = String::from("36");
    let marked = mark_connected(&nets, &String::from("Home"), &String::from("36"));
    let flags: Vec<bool> = marked.iter().map(|w| w.connected).collect();
    assert_eq!(flags, vec![false, true, false]);
    assert_eq!(marked[1].ssid, "Home");
    assert_eq!(marked[1].signal_level, "-62");
}
