//! The failover selector: ranks the visible trusted networks and picks the
//! strongest backup candidate.

use vstd::prelude::*;

use crate::network::{contains_ssid, is_trusted_candidate, WifiNetwork, WifiNetworkView};
use crate::signal::FatalMetricError;
use crate::text::{parse_signal_level, spec_parse_i32};

verus! {

/// Whether entry `i` of `v` is a failover candidate: visible, trusted, and
/// not the active SSID.
pub open spec fn is_candidate(
    v: Seq<WifiNetworkView>,
    trusted: Seq<Seq<char>>,
    active: Seq<char>,
    i: int,
) -> bool {
    0 <= i < v.len() && is_trusted_candidate(v[i], trusted, active)
}

/// The parsed signal level of entry `i` of `v`.
pub open spec fn sig_of(v: Seq<WifiNetworkView>, i: int) -> Option<i32> {
    spec_parse_i32(v[i].signal_level)
}

/// Picks the backup candidate: the trusted, non-active visible network whose
/// signal level is numerically greatest, preferring the first in scan order
/// on an exact tie.
///
/// Returns `Ok(None)` exactly when no candidate is visible, and a
/// `FatalMetricError` exactly when some candidate carries a non-numeric
/// signal level.
pub fn select_candidate(
    nets: &Vec<WifiNetwork>,
    trusted: &Vec<String>,
    active_ssid: &String,
) -> (r: Result<Option<usize>, FatalMetricError>)
    ensures
        ({
            let v = nets.deep_view();
            let t = trusted.deep_view();
            let a = active_ssid@;
            &&& (r matches Ok(None) <==> (forall|i: int| !is_candidate(v, t, a, i)))
            &&& (r is Err <==> (exists|i: int|
                #[trigger] is_candidate(v, t, a, i) && sig_of(v, i) is None))
            &&& (r matches Ok(Some(k)) ==> {
                &&& is_candidate(v, t, a, k as int)
                &&& sig_of(v, k as int) is Some
                &&& (forall|i: int|
                    #[trigger] is_candidate(v, t, a, i) && sig_of(v, i) is Some ==> sig_of(
                        v,
                        i,
                    )->Some_0 <= sig_of(v, k as int)->Some_0)
                &&& (forall|i: int|
                    i < k && #[trigger] is_candidate(v, t, a, i) && sig_of(v, i) is Some ==> sig_of(
                        v,
                        i,
                    )->Some_0 < sig_of(v, k as int)->Some_0)
            })
        }),
{
    let ghost v = nets.deep_view();
    let ghost t = trusted.deep_view();
    let ghost a = active_ssid@;
    let mut have = false;
    let mut best_idx: usize = 0;
    let mut best_lv: i32 = 0;
    let mut i: usize = 0;
    while i < nets.len()
        invariant
            v == nets.deep_view(),
            t == trusted.deep_view(),
            a == active_ssid@,
            0 <= i <= v.len(),
            v.len() == nets@.len(),
            !have ==> (forall|j: int| 0 <= j < i ==> !is_candidate(v, t, a, j)),
            forall|j: int|
                0 <= j < i && #[trigger] is_candidate(v, t, a, j) ==> sig_of(v, j) is Some,
            have ==> best_idx < i && is_candidate(v, t, a, best_idx as int) && sig_of(
                v,
                best_idx as int,
            ) == Some(best_lv),
            have ==> (forall|j: int|
                0 <= j < i && #[trigger] is_candidate(v, t, a, j) ==> sig_of(v, j)->Some_0
                    <= best_lv),
            have ==> (forall|j: int|
                0 <= j < best_idx && #[trigger] is_candidate(v, t, a, j) ==> sig_of(v, j)->Some_0
                    < best_lv),
        decreases v.len() - i,
    {
        let w = &nets[i];
        let cand = contains_ssid(trusted, &w.ssid) && !(w.ssid == *active_ssid);
        if cand {
            proof {
                assert(is_candidate(v, t, a, i as int));
            }
            match parse_signal_level(w.signal_level.as_str()) {
                None => {
                    proof {
                        assert(is_candidate(v, t, a, i as int) && sig_of(v, i as int) is None);
                    }
                    return Err(FatalMetricError);
                },
                Some(lv) => {
                    if !have || lv > best_lv {
                        best_idx = i;
                        best_lv = lv;
                        have = true;
                    }
                },
            }
        } else {
            proof {
                assert(!is_candidate(v, t, a, i as int));
            }
        }
        i = i + 1;
    }
    if have {
        Ok(Some(best_idx))
    } else {
        Ok(None)
    }
}

} // verus!
