//! The annotated view of a visible network, and the operations that prepare
//! the scanner's output for the evaluator and the selector: marking which
//! entry is the active one and filtering to the trusted candidates.

use vstd::prelude::*;

verus! {

/// A currently visible network, annotated with whether it is the active one.
pub struct WifiNetwork {
    pub ssid: String,
    pub mac: String,
    pub security: String,
    /// Signal level in dBm, carried as text from the scanner.
    pub signal_level: String,
    pub channel: String,
    pub connected: bool,
}

/// Mathematical image of a `WifiNetwork`.
pub struct WifiNetworkView {
    pub ssid: Seq<char>,
    pub mac: Seq<char>,
    pub security: Seq<char>,
    pub signal_level: Seq<char>,
    pub channel: Seq<char>,
    pub connected: bool,
}

impl View for WifiNetwork {
    type V = WifiNetworkView;

    open spec fn view(&self) -> WifiNetworkView {
        WifiNetworkView {
            ssid: self.ssid@,
            mac: self.mac@,
            security: self.security@,
            signal_level: self.signal_level@,
            channel: self.channel@,
            connected: self.connected,
        }
    }
}

impl DeepView for WifiNetwork {
    type V = WifiNetworkView;

    open spec fn deep_view(&self) -> WifiNetworkView {
        self.view()
    }
}

impl WifiNetwork {
    /// An equal copy of the record.
    pub fn duplicate(&self) -> (r: WifiNetwork)
        ensures
            r@ == self@,
    {
        WifiNetwork {
            ssid: self.ssid.clone(),
            mac: self.mac.clone(),
            security: self.security.clone(),
            signal_level: self.signal_level.clone(),
            channel: self.channel.clone(),
            connected: self.connected,
        }
    }
}

/// An equal copy of a list of network records.
pub fn dup_networks(nets: &Vec<WifiNetwork>) -> (r: Vec<WifiNetwork>)
    ensures
        r.deep_view() == nets.deep_view(),
{
    let mut out: Vec<WifiNetwork> = Vec::new();
    let mut i: usize = 0;
    while i < nets.len()
        invariant
            0 <= i <= nets@.len(),
            out.deep_view() =~= nets.deep_view().subrange(0, i as int),
        decreases nets@.len() - i,
    {
        let ghost old_out = out.deep_view();
        out.push(nets[i].duplicate());
        proof {
            assert(out.deep_view() =~= old_out.push(nets@[i as int]@));
            assert(out.deep_view() =~= nets.deep_view().subrange(0, i + 1 as int));
        }
        i = i + 1;
    }
    proof {
        assert(nets.deep_view().subrange(0, nets@.len() as int) =~= nets.deep_view());
    }
    out
}

/// `w` with its `connected` flag set to whether it is the active association:
/// same SSID and same channel.
pub open spec fn with_connected(
    w: WifiNetworkView,
    active_ssid: Seq<char>,
    active_channel: Seq<char>,
) -> WifiNetworkView {
    WifiNetworkView { connected: w.ssid == active_ssid && w.channel == active_channel, ..w }
}

/// Annotates every scanned network with whether it is the active association.
pub fn mark_connected(
    nets: &Vec<WifiNetwork>,
    active_ssid: &String,
    active_channel: &String,
) -> (r: Vec<WifiNetwork>)
    ensures
        r.deep_view().len() == nets.deep_view().len(),
        forall|i: int|
            0 <= i < nets.deep_view().len() ==> r.deep_view()[i] == with_connected(
                nets.deep_view()[i],
                active_ssid@,
                active_channel@,
            ),
{
    let mut out: Vec<WifiNetwork> = Vec::new();
    let mut i: usize = 0;
    while i < nets.len()
        invariant
            0 <= i <= nets@.len(),
            out.deep_view().len() == i,
            forall|j: int|
                0 <= j < i ==> out.deep_view()[j] == with_connected(
                    nets.deep_view()[j],
                    active_ssid@,
                    active_channel@,
                ),
        decreases nets@.len() - i,
    {
        let w = &nets[i];
        let conn = w.ssid == *active_ssid && w.channel == *active_channel;
        let ghost old_out = out.deep_view();
        out.push(
            WifiNetwork {
                ssid: w.ssid.clone(),
                mac: w.mac.clone(),
                security: w.security.clone(),
                signal_level: w.signal_level.clone(),
                channel: w.channel.clone(),
                connected: conn,
            },
        );
        proof {
            assert(out.deep_view() =~= old_out.push(
                with_connected(nets.deep_view()[i as int], active_ssid@, active_channel@),
            ));
        }
        i = i + 1;
    }
    out
}

/// Whether `w` is an acceptable failover candidate: its SSID is trusted and
/// differs from the active SSID.
pub open spec fn is_trusted_candidate(
    w: WifiNetworkView,
    trusted: Seq<Seq<char>>,
    active: Seq<char>,
) -> bool {
    trusted.contains(w.ssid) && w.ssid != active
}

/// The subsequence of `v` whose entries are trusted candidates.
pub open spec fn candidate_filter(
    v: Seq<WifiNetworkView>,
    trusted: Seq<Seq<char>>,
    active: Seq<char>,
) -> Seq<WifiNetworkView> {
    v.filter(|w: WifiNetworkView| is_trusted_candidate(w, trusted, active))
}

/// Whether `ssid` occurs in `list`.
pub fn contains_ssid(list: &Vec<String>, ssid: &String) -> (b: bool)
    ensures
        b == list.deep_view().contains(ssid@),
{
    let mut i: usize = 0;
    while i < list.len()
        invariant
            0 <= i <= list@.len(),
            forall|j: int| 0 <= j < i ==> list.deep_view()[j] != ssid@,
        decreases list@.len() - i,
    {
        if list[i] == *ssid {
            proof {
                assert(list.deep_view()[i as int] == ssid@);
            }
            return true;
        }
        i = i + 1;
    }
    proof {
        assert(forall|j: int|
            0 <= j < list.deep_view().len() ==> #[trigger] list.deep_view()[j] != ssid@);
    }
    false
}

/// Keeps the visible networks that are trusted candidates, in scan order.
///
/// This is the trusted view the controller publishes and the pool the
/// selector ranks: trusted SSIDs only, never the active one.
pub fn filter_trusted(
    nets: &Vec<WifiNetwork>,
    trusted: &Vec<String>,
    active_ssid: &String,
) -> (r: Vec<WifiNetwork>)
    ensures
        r.deep_view() == candidate_filter(nets.deep_view(), trusted.deep_view(), active_ssid@),
{
    let ghost t = trusted.deep_view();
    let ghost a = active_ssid@;
    let mut out: Vec<WifiNetwork> = Vec::new();
    let mut i: usize = 0;
    proof {
        assert(nets.deep_view().subrange(0, 0) =~= Seq::<WifiNetworkView>::empty());
        reveal_with_fuel(Seq::filter, 1);
        assert(out.deep_view() =~= candidate_filter(nets.deep_view().subrange(0, 0), t, a));
    }
    while i < nets.len()
        invariant
            0 <= i <= nets@.len(),
            t == trusted.deep_view(),
            a == active_ssid@,
            out.deep_view() =~= candidate_filter(nets.deep_view().subrange(0, i as int), t, a),
        decreases nets@.len() - i,
    {
        let w = &nets[i];
        let keep = contains_ssid(trusted, &w.ssid) && !(w.ssid == *active_ssid);
        let ghost old_out = out.deep_view();
        let ghost sub = nets.deep_view().subrange(0, i as int);
        let ghost sub1 = nets.deep_view().subrange(0, i + 1 as int);
        proof {
            assert(sub1.drop_last() =~= sub);
            assert(sub1.last() == nets.deep_view()[i as int]);
            reveal_with_fuel(Seq::filter, 2);
        }
        if keep {
            out.push(w.duplicate());
            proof {
                assert(out.deep_view() =~= old_out.push(nets.deep_view()[i as int]));
                assert(out.deep_view() =~= candidate_filter(sub1, t, a));
            }
        } else {
            proof {
                assert(out.deep_view() =~= candidate_filter(sub1, t, a));
            }
        }
        i = i + 1;
    }
    proof {
        assert(nets.deep_view().subrange(0, nets@.len() as int) =~= nets.deep_view());
    }
    out
}

} // verus!
