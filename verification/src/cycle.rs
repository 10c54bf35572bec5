//! The decision at the heart of one control-loop cycle: given the annotated
//! visible networks, the trusted SSIDs and the active SSID, either name the
//! backup network to join or hand back the state to publish to observers.
//!
//! The caller runs the cycle on its cadence, performs the chosen action, and
//! reports errors without stopping; every decision is taken here.

use vstd::prelude::*;

use crate::network::{candidate_filter, dup_networks, filter_trusted, WifiNetwork};
use crate::selector::{is_candidate, select_candidate, sig_of};
use crate::signal::{has_degraded, spec_has_degraded, FatalMetricError};

verus! {

/// What one cycle decides.
pub enum CycleOutcome {
    /// The active connection has degraded and a backup is visible: attempt to
    /// join the named network this cycle.
    Failover { ssid: String },
    /// No failover this cycle: publish the annotated visible list and its
    /// trusted subset to observers.
    Publish { available: Vec<WifiNetwork>, trusted: Vec<WifiNetwork> },
}

/// Builds the publish outcome: the visible list as it stands, and its
/// trusted, non-active subset in scan order.
fn publish_outcome(
    nets: &Vec<WifiNetwork>,
    trusted: &Vec<String>,
    active_ssid: &String,
) -> (r: CycleOutcome)
    ensures
        (r matches CycleOutcome::Publish { available, trusted: tr } && available.deep_view()
            == nets.deep_view() && tr.deep_view() == candidate_filter(
            nets.deep_view(),
            trusted.deep_view(),
            active_ssid@,
        )),
{
    CycleOutcome::Publish {
        available: dup_networks(nets),
        trusted: filter_trusted(nets, trusted, active_ssid),
    }
}

/// Decides one cycle.
///
/// When the active connection has degraded and a trusted, non-active network
/// is visible, the outcome names the strongest such candidate (first in scan
/// order on a tie). Otherwise the outcome is the publish state. A non-numeric
/// signal level on the judged entry or on a candidate is a fatal metric
/// fault for this cycle.
pub fn decide_cycle(
    nets: &Vec<WifiNetwork>,
    trusted: &Vec<String>,
    active_ssid: &String,
    threshold: i32,
) -> (r: Result<CycleOutcome, FatalMetricError>)
    ensures
        ({
            let v = nets.deep_view();
            let t = trusted.deep_view();
            let a = active_ssid@;
            let deg = spec_has_degraded(v, a, threshold as int);
            &&& (r is Err <==> (deg is Err || (deg == Ok::<bool, FatalMetricError>(true)
                && exists|i: int| #[trigger] is_candidate(v, t, a, i) && sig_of(v, i) is None)))
            &&& (r matches Ok(CycleOutcome::Failover { ssid }) ==> {
                &&& deg == Ok::<bool, FatalMetricError>(true)
                &&& exists|k: int|
                    {
                        &&& #[trigger] is_candidate(v, t, a, k)
                        &&& ssid@ == v[k].ssid
                        &&& sig_of(v, k) is Some
                        &&& (forall|i: int|
                            #[trigger] is_candidate(v, t, a, i) && sig_of(v, i) is Some ==> sig_of(
                                v,
                                i,
                            )->Some_0 <= sig_of(v, k)->Some_0)
                        &&& (forall|i: int|
                            i < k && #[trigger] is_candidate(v, t, a, i) && sig_of(v, i) is Some
                                ==> sig_of(v, i)->Some_0 < sig_of(v, k)->Some_0)
                    }
            })
            &&& (deg == Ok::<bool, FatalMetricError>(true) && (exists|i: int|
                is_candidate(v, t, a, i)) && (forall|i: int|
                #[trigger] is_candidate(v, t, a, i) ==> sig_of(v, i) is Some) ==> r matches Ok(
                CycleOutcome::Failover { .. },
            ))
            &&& (r matches Ok(CycleOutcome::Publish { available, trusted: tr }) ==> {
                &&& available.deep_view() == v
                &&& tr.deep_view() == candidate_filter(v, t, a)
                &&& (deg == Ok::<bool, FatalMetricError>(false) || (deg == Ok::<
                    bool,
                    FatalMetricError,
                >(true) && forall|i: int| !is_candidate(v, t, a, i)))
            })
            &&& (deg == Ok::<bool, FatalMetricError>(false) ==> r matches Ok(
                CycleOutcome::Publish { .. },
            ))
        }),
{
    let ghost v = nets.deep_view();
    let ghost t = trusted.deep_view();
    let ghost a = active_ssid@;
    match has_degraded(nets, active_ssid, threshold) {
        Err(e) => Err(e),
        Ok(false) => Ok(publish_outcome(nets, trusted, active_ssid)),
        Ok(true) => {
            match select_candidate(nets, trusted, active_ssid) {
                Err(e) => Err(e),
                Ok(None) => Ok(publish_outcome(nets, trusted, active_ssid)),
                Ok(Some(idx)) => {
                    proof {
                        assert(is_candidate(v, t, a, idx as int));
                        assert(v.len() == nets@.len());
                    }
                    let ssid = nets[idx].ssid.clone();
                    proof {
                        assert(ssid@ == v[idx as int].ssid);
                    }
                    Ok(CycleOutcome::Failover { ssid })
                },
            }
        },
    }
}

} // verus!
