//! Reads the adapter's diagnostic text into a structured snapshot of the
//! active wireless association.
//!
//! The diagnostic report is a fixed sequence of lines, one field per line.
//! Every line is mandatory except the associated access-point identifier,
//! which may be an empty line. Parsing is permissive about the field values
//! themselves: the signal level is kept as text and judged only where it is
//! used numerically.

use vstd::prelude::*;
use vstd::string::StrSliceExecFns;

use crate::text::{split_all, split_char, spec_trim, trim_str};

verus! {

/// Why adapter diagnostic text could not be read into a snapshot.
#[derive(Clone, Copy, Debug, PartialEq, Eq, Structural)]
pub enum ReadError {
    /// A mandatory line of the diagnostic report is missing.
    MalformedOutput,
}

/// The number of lines a full diagnostic report carries.
pub const REPORT_LINES: usize = 17;

/// Snapshot of the active wireless association, one field per report line.
pub struct WifiInfo {
    pub ctl_rssi: String,
    pub ext_rssi: String,
    pub ctl_noise: String,
    pub ext_noise: String,
    pub state: String,
    pub op_mode: String,
    pub last_tx_rate: String,
    pub max_rate: String,
    pub last_assoc_status: String,
    pub auth: String,
    pub link_auth: String,
    /// Associated access-point identifier; absent when its line is empty.
    pub bssid: Option<String>,
    pub ssid: String,
    pub mcs: String,
    pub guard_interval: String,
    pub nss: String,
    /// Channel descriptor, comma-separated in the report.
    pub channel: Vec<String>,
}

/// A line with one trailing carriage return removed, so a report with CRLF
/// line endings reads as one with bare newlines.
pub open spec fn strip_cr(line: Seq<char>) -> Seq<char> {
    if line.len() > 0 && line.last() == '\r' {
        line.drop_last()
    } else {
        line
    }
}

/// The lines of a report: split at every newline, each stripped of one
/// trailing carriage return, without a trailing empty piece when the text
/// ends in a newline.
pub open spec fn spec_lines(s: Seq<char>) -> Seq<Seq<char>> {
    if s.len() == 0 {
        Seq::empty()
    } else if s.last() == '\n' {
        split_all(s.drop_last(), '\n').map_values(|l: Seq<char>| strip_cr(l))
    } else {
        split_all(s, '\n').map_values(|l: Seq<char>| strip_cr(l))
    }
}

/// The `i`-th line of report `s`, trimmed.
pub open spec fn field_at(s: Seq<char>, i: int) -> Seq<char> {
    spec_trim(spec_lines(s)[i])
}

/// Splits a report into its lines.
pub fn split_lines(s: &str) -> (r: Vec<String>)
    ensures
        r.deep_view() == spec_lines(s@),
{
    let n = s.unicode_len();
    if n == 0 {
        let out: Vec<String> = Vec::new();
        proof {
            assert(out.deep_view() =~= Seq::<Seq<char>>::empty());
        }
        return out;
    }
    let cl = s.get_char(n - 1);
    let raw = if cl == '\n' {
        let sub = s.substring_char(0, n - 1);
        proof {
            assert(sub@ =~= s@.drop_last());
        }
        split_char(sub, '\n')
    } else {
        split_char(s, '\n')
    };
    proof {
        assert(spec_lines(s@).len() == raw.deep_view().len());
        assert(forall|j: int|
            0 <= j < raw.deep_view().len() ==> spec_lines(s@)[j] == strip_cr(
                #[trigger] raw.deep_view()[j],
            ));
    }
    let mut out: Vec<String> = Vec::new();
    let mut i: usize = 0;
    while i < raw.len()
        invariant
            0 <= i <= raw@.len(),
            raw@.len() == raw.deep_view().len(),
            spec_lines(s@).len() == raw.deep_view().len(),
            forall|j: int|
                0 <= j < raw.deep_view().len() ==> spec_lines(s@)[j] == strip_cr(
                    #[trigger] raw.deep_view()[j],
                ),
            out.deep_view() =~= spec_lines(s@).subrange(0, i as int),
        decreases raw@.len() - i,
    {
        let line = &raw[i];
        let ln = line.as_str().unicode_len();
        let ghost old_out = out.deep_view();
        if ln > 0 && line.as_str().get_char(ln - 1) == '\r' {
            let stripped = line.as_str().substring_char(0, ln - 1).to_owned();
            proof {
                assert(stripped@ =~= raw.deep_view()[i as int].drop_last());
                assert(stripped@ == strip_cr(raw.deep_view()[i as int]));
            }
            out.push(stripped);
        } else {
            let kept = line.clone();
            proof {
                assert(kept@ == strip_cr(raw.deep_view()[i as int]));
            }
            out.push(kept);
        }
        proof {
            assert(out.deep_view() =~= old_out.push(strip_cr(raw.deep_view()[i as int])));
            assert(out.deep_view() =~= spec_lines(s@).subrange(0, i + 1 as int));
        }
        i = i + 1;
    }
    proof {
        assert(spec_lines(s@).subrange(0, spec_lines(s@).len() as int) =~= spec_lines(s@));
    }
    out
}

/// Parses a diagnostic report into a snapshot.
///
/// Fails with `ReadError::MalformedOutput` exactly when the report has fewer
/// lines than the fixed field set requires. The access-point identifier is
/// the one optional field: an empty line (before any trimming) leaves it
/// absent without failing; a non-empty line yields it, trimmed, even when
/// nothing but blanks remains.
pub fn parse_wifi_info(s: &str) -> (r: Result<WifiInfo, ReadError>)
    ensures
        r is Ok <==> spec_lines(s@).len() >= REPORT_LINES,
        r matches Err(e) ==> e == ReadError::MalformedOutput,
        r matches Ok(info) ==> {
            &&& info.ctl_rssi@ == field_at(s@, 0)
            &&& info.ext_rssi@ == field_at(s@, 1)
            &&& info.ctl_noise@ == field_at(s@, 2)
            &&& info.ext_noise@ == field_at(s@, 3)
            &&& info.state@ == field_at(s@, 4)
            &&& info.op_mode@ == field_at(s@, 5)
            &&& info.last_tx_rate@ == field_at(s@, 6)
            &&& info.max_rate@ == field_at(s@, 7)
            &&& info.last_assoc_status@ == field_at(s@, 8)
            &&& info.auth@ == field_at(s@, 9)
            &&& info.link_auth@ == field_at(s@, 10)
            &&& (spec_lines(s@)[11].len() == 0 ==> info.bssid is None)
            &&& (spec_lines(s@)[11].len() > 0 ==> (info.bssid matches Some(b) && b@ == field_at(
                s@,
                11,
            )))
            &&& info.ssid@ == field_at(s@, 12)
            &&& info.mcs@ == field_at(s@, 13)
            &&& info.guard_interval@ == field_at(s@, 14)
            &&& info.nss@ == field_at(s@, 15)
            &&& info.channel.deep_view() == split_all(field_at(s@, 16), ',')
        },
{
    let lines = split_lines(s);
    if lines.len() < REPORT_LINES {
        return Err(ReadError::MalformedOutput);
    }
    let bssid = if lines[11].as_str().is_empty() {
        None
    } else {
        Some(trim_str(lines[11].as_str()))
    };
    let channel_text = trim_str(lines[16].as_str());
    let channel = split_char(channel_text.as_str(), ',');
    Ok(
        WifiInfo {
            ctl_rssi: trim_str(lines[0].as_str()),
            ext_rssi: trim_str(lines[1].as_str()),
            ctl_noise: trim_str(lines[2].as_str()),
            ext_noise: trim_str(lines[3].as_str()),
            state: trim_str(lines[4].as_str()),
            op_mode: trim_str(lines[5].as_str()),
            last_tx_rate: trim_str(lines[6].as_str()),
            max_rate: trim_str(lines[7].as_str()),
            last_assoc_status: trim_str(lines[8].as_str()),
            auth: trim_str(lines[9].as_str()),
            link_auth: trim_str(lines[10].as_str()),
            bssid,
            ssid: trim_str(lines[12].as_str()),
            mcs: trim_str(lines[13].as_str()),
            guard_interval: trim_str(lines[14].as_str()),
            nss: trim_str(lines[15].as_str()),
            channel,
        },
    )
}

} // verus!
