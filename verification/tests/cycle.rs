use wifi_failover::cycle::{decide_cycle, CycleOutcome};
use wifi_failover::network::WifiNetwork;
use wifi_failover::signal::FatalMetricError;

fn net(ssid: &str, signal: &str, connected: bool) -> WifiNetwork {
    WifiNetwork {
        ssid: String::from(ssid),
        mac: String::from("00:00:00:00:00:00"),
        security: String::from("WPA2"),
        signal_level: String::from(signal),
        channel: String::from("6"),
        connected,
    }
}

fn trusted(names: &[&str]) -> Vec<String> {
    names.iter().map(|n| String::from(*n)).collect()
}

#[test]
fn degraded_home_fails_over_to_office() {
    let nets = vec![net("Home", "-80", true), net("Office", "-55", false)];
    let t = trusted(&["Home", "Office"]);
    let r = decide_cycle(&nets, &t, &String::from("Home"), -75).unwrap();
    match r {
        CycleOutcome::Failover { ssid } => assert_eq!(ssid, "Office"),
        CycleOutcome::Publish { .. } => panic!("expected a failover attempt"),
    }
}

#[test]
fn healthy_connection_publishes_both_views() {
    let nets = vec![
        net("Home", "-60", true),
        net("Office", "-55", false),
        net("Cafe", "-40", false),
    ];
    let t = trusted(&["Home", "Office"]);
    let r = decide_cycle(&nets, &t, &String::from("Home"), -75).unwrap();
    match r {
        CycleOutcome::Publish { available, trusted } => {
            let avail: Vec<&str> = available.iter().map(|w| w.ssid.as_str()).collect();
            assert_eq!(avail, vec!["Home", "Office", "Cafe"]);
            let tr: Vec<&str> = trusted.iter().map(|w| w.ssid.as_str()).collect();
            assert_eq!(tr, vec!["Office"]);
        },
        CycleOutcome::Failover { .. } => panic!("no failover expected on a healthy link"),
    }
}

#[test]
fn degraded_without_candidates_publishes() {
    let nets = vec![net("Home", "-90", true), net("Cafe", "-40", false)];
    let t = trusted(&["Home"]);
    let r = decide_cycle(&nets, &t, &String::from("Home"), -75).unwrap();
    match r {
        CycleOutcome::Publish { available, trusted } => {
            assert_eq!(available.len(), 2);
            assert!(trusted.is_empty());
        },
        CycleOutcome::Failover { .. } => panic!("no candidate was available"),
    }
}

#[test]
fn degraded_picks_strongest_of_several_backups() {
    let nets = vec![
        net("Home", "-80", true),
        net("Cafe", "-80", false),
        net("Office", "-60", false),
        net("Garage", "-70", false),
    ];
    let t = trusted(&["Home", "Cafe", "Office", "Garage"]);
    let r = decide_cycle(&nets, &t, &String::from("Home"), -75).unwrap();
    match r {
        CycleOutcome::Failover { ssid } => assert_eq!(ssid, "Office"),
        CycleOutcome::Publish { .. } => panic!("expected a failover attempt"),
    }
}

#[test]
fn unparseable_active_signal_is_fatal_for_the_cycle() {
    let nets = vec![net("Home", "n/a", true), net("Office", "-55", false)];
    let t = trusted(&["Office"]);
    assert!(matches!(
        decide_cycle(&nets, &t, &String::from("Home"), -75),
        Err(FatalMetricError)
    ));
}

#[test]
fn unparseable_candidate_signal_is_fatal_when_degraded() {
    let nets = vec![net("Home", "-90", true), net("Office", "oops", false)];
    let t = trusted(&["Office"]);
    assert!(matches!(
        decide_cycle(&nets, &t, &String::from("Home"), -75),
        Err(FatalMetricError)
    ));
}
