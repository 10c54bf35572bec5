//! The signal evaluator: decides from a list of visible networks whether the
//! active connection has degraded past the recovery threshold.

use vstd::prelude::*;

use crate::network::{WifiNetwork, WifiNetworkView};
use crate::text::{parse_signal_level, spec_parse_i32};

verus! {

/// Unparseable numeric signal data where a number is contractually required:
/// an upstream data-integrity fault, not a recoverable condition.
#[derive(Clone, Copy, Debug, PartialEq, Eq, Structural)]
pub struct FatalMetricError;

/// What the evaluator decides: the first entry whose SSID equals the active
/// one is judged against the threshold; with no such entry the connection
/// conservatively counts as not degraded.
pub open spec fn spec_has_degraded(
    v: Seq<WifiNetworkView>,
    active: Seq<char>,
    threshold: int,
) -> Result<bool, FatalMetricError>
    decreases v.len(),
{
    if v.len() == 0 {
        Ok(false)
    } else if v[0].ssid == active {
        match spec_parse_i32(v[0].signal_level) {
            Some(lv) => Ok(lv < threshold),
            None => Err(FatalMetricError),
        }
    } else {
        spec_has_degraded(v.drop_first(), active, threshold)
    }
}

/// Decides whether the active connection has degraded: true exactly when the
/// active SSID is visible and its signal level lies strictly below
/// `threshold` dBm. A visible active entry whose signal level is not numeric
/// is a `FatalMetricError`.
pub fn has_degraded(nets: &Vec<WifiNetwork>, active_ssid: &String, threshold: i32) -> (r: Result<
    bool,
    FatalMetricError,
>)
    ensures
        r == spec_has_degraded(nets.deep_view(), active_ssid@, threshold as int),
{
    let ghost v = nets.deep_view();
    let ghost a = active_ssid@;
    let ghost thr = threshold as int;
    proof {
        assert(v.subrange(0, v.len() as int) =~= v);
    }
    let mut i: usize = 0;
    while i < nets.len()
        invariant
            v == nets.deep_view(),
            a == active_ssid@,
            thr == threshold as int,
            0 <= i <= v.len(),
            v.len() == nets@.len(),
            spec_has_degraded(v, a, thr) == spec_has_degraded(
                v.subrange(i as int, v.len() as int),
                a,
                thr,
            ),
        decreases v.len() - i,
    {
        proof {
            assert(v.subrange(i as int, v.len() as int).drop_first() =~= v.subrange(
                i + 1 as int,
                v.len() as int,
            ));
            assert(v.subrange(i as int, v.len() as int)[0] == v[i as int]);
        }
        if nets[i].ssid == *active_ssid {
            match parse_signal_level(nets[i].signal_level.as_str()) {
                Some(lv) => {
                    return Ok(lv < threshold);
                },
                None => {
                    return Err(FatalMetricError);
                },
            }
        }
        i = i + 1;
    }
    proof {
        assert(v.subrange(v.len() as int, v.len() as int) =~= Seq::<WifiNetworkView>::empty());
    }
    Ok(false)
}

/// The evaluator judges exactly the first entry whose SSID equals the active
/// one: degraded when its level parses below the threshold, not degraded when
/// it parses at or above it, and a fatal metric fault when it does not parse.
pub proof fn lemma_has_degraded_found(
    v: Seq<WifiNetworkView>,
    active: Seq<char>,
    threshold: int,
    i: int,
)
    requires
        0 <= i < v.len(),
        v[i].ssid == active,
        forall|j: int| 0 <= j < i ==> (#[trigger] v[j]).ssid != active,
    ensures
        spec_parse_i32(v[i].signal_level) matches Some(lv) ==> spec_has_degraded(
            v,
            active,
            threshold,
        ) == Ok::<bool, FatalMetricError>(lv < threshold),
        spec_parse_i32(v[i].signal_level) is None ==> spec_has_degraded(v, active, threshold)
            == Err::<bool, FatalMetricError>(FatalMetricError),
    decreases i,
{
    if i > 0 {
        assert(forall|j: int| 0 <= j < i - 1 ==> (#[trigger] v.drop_first()[j]).ssid != active);
        assert(v.drop_first()[i - 1] == v[i]);
        lemma_has_degraded_found(v.drop_first(), active, threshold, i - 1);
    }
}

/// With the active SSID absent from the list, the evaluator reports no
/// degradation and triggers no failover.
pub proof fn lemma_has_degraded_absent(v: Seq<WifiNetworkView>, active: Seq<char>, threshold: int)
    requires
        forall|j: int| 0 <= j < v.len() ==> (#[trigger] v[j]).ssid != active,
    ensures
        spec_has_degraded(v, active, threshold) == Ok::<bool, FatalMetricError>(false),
    decreases v.len(),
{
    if v.len() > 0 {
        assert(forall|j: int|
            0 <= j < v.drop_first().len() ==> (#[trigger] v.drop_first()[j]).ssid != active);
        lemma_has_degraded_absent(v.drop_first(), active, threshold);
    }
}

} // verus!
