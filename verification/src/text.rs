//! Text utilities the snapshot reader and the signal evaluator share:
//! splitting at a separator, trimming surrounding blanks, and parsing a
//! signed decimal signal level.

use vstd::prelude::*;
use vstd::string::StrSliceExecFns;

verus! {

/// Characters that trimming strips from both ends of a field: the Unicode
/// White_Space set.
pub open spec fn is_space(c: char) -> bool {
    let n = c as int;
    ||| n == 0x09
    ||| n == 0x0A
    ||| n == 0x0B
    ||| n == 0x0C
    ||| n == 0x0D
    ||| n == 0x20
    ||| n == 0x85
    ||| n == 0xA0
    ||| n == 0x1680
    ||| (0x2000 <= n <= 0x200A)
    ||| n == 0x2028
    ||| n == 0x2029
    ||| n == 0x202F
    ||| n == 0x205F
    ||| n == 0x3000
}

/// Pieces of `s` split at every occurrence of `sep`, with `cur` the piece
/// under construction when the scan reaches `s`.
pub open spec fn split_from(s: Seq<char>, sep: char, cur: Seq<char>) -> Seq<Seq<char>>
    decreases s.len(),
{
    if s.len() == 0 {
        seq![cur]
    } else if s[0] == sep {
        seq![cur] + split_from(s.drop_first(), sep, Seq::empty())
    } else {
        split_from(s.drop_first(), sep, cur.push(s[0]))
    }
}

/// All pieces of `s` split at `sep`; the empty text gives one empty piece.
pub open spec fn split_all(s: Seq<char>, sep: char) -> Seq<Seq<char>> {
    split_from(s, sep, Seq::empty())
}

/// Splits `s` at every occurrence of `sep`, keeping empty pieces.
pub fn split_char(s: &str, sep: char) -> (r: Vec<String>)
    ensures
        r.deep_view() == split_all(s@, sep),
{
    let n = s.unicode_len();
    let mut out: Vec<String> = Vec::new();
    let mut start: usize = 0;
    let mut i: usize = 0;
    proof {
        assert(s@.subrange(0, n as int) =~= s@);
        assert(s@.subrange(0, 0) =~= Seq::<char>::empty());
        assert(out.deep_view() =~= Seq::<Seq<char>>::empty());
        assert(out.deep_view() + split_from(s@, sep, Seq::<char>::empty()) =~= split_from(
            s@,
            sep,
            Seq::<char>::empty(),
        ));
    }
    while i < n
        invariant
            n == s@.len(),
            0 <= start <= i <= n,
            forall|j: int| start <= j < i ==> s@[j] != sep,
            out.deep_view() + split_from(
                s@.subrange(i as int, n as int),
                sep,
                s@.subrange(start as int, i as int),
            ) == split_all(s@, sep),
        decreases n - i,
    {
        let c = s.get_char(i);
        proof {
            assert(s@.subrange(i as int, n as int).drop_first() =~= s@.subrange(
                i + 1 as int,
                n as int,
            ));
            assert(s@.subrange(i as int, n as int)[0] == s@[i as int]);
        }
        if c == sep {
            let piece = s.substring_char(start, i).to_owned();
            proof {
                assert(piece@ =~= s@.subrange(start as int, i as int));
            }
            let ghost old_out = out.deep_view();
            out.push(piece);
            proof {
                assert(out.deep_view() =~= old_out.push(piece@));
                assert(s@.subrange(i + 1 as int, i + 1 as int) =~= Seq::<char>::empty());
            }
            start = i + 1;
        } else {
            proof {
                assert(s@.subrange(start as int, i as int).push(s@[i as int]) =~= s@.subrange(
                    start as int,
                    i + 1 as int,
                ));
            }
        }
        i = i + 1;
    }
    let piece = s.substring_char(start, n).to_owned();
    proof {
        assert(piece@ =~= s@.subrange(start as int, n as int));
        assert(s@.subrange(n as int, n as int) =~= Seq::<char>::empty());
    }
    let ghost old_out = out.deep_view();
    out.push(piece);
    proof {
        assert(out.deep_view() =~= old_out.push(piece@));
    }
    out
}

/// `s` with blanks stripped from both ends.
pub open spec fn spec_trim(s: Seq<char>) -> Seq<char>
    decreases s.len(),
{
    if s.len() > 0 && is_space(s[0]) {
        spec_trim(s.drop_first())
    } else if s.len() > 0 && is_space(s.last()) {
        spec_trim(s.drop_last())
    } else {
        s
    }
}

fn is_space_exec(c: char) -> (b: bool)
    ensures
        b == is_space(c),
{
    let n: u32 = c as u32;
    n == 0x09 || n == 0x0A || n == 0x0B || n == 0x0C || n == 0x0D || n == 0x20 || n == 0x85 || n
        == 0xA0 || n == 0x1680 || (0x2000 <= n && n <= 0x200A) || n == 0x2028 || n == 0x2029 || n
        == 0x202F || n == 0x205F || n == 0x3000
}

/// Strips blanks from both ends of `s`.
pub fn trim_str(s: &str) -> (r: String)
    ensures
        r@ == spec_trim(s@),
    decreases s@.len(),
{
    let n = s.unicode_len();
    if n > 0 {
        let c0 = s.get_char(0);
        if is_space_exec(c0) {
            let sub = s.substring_char(1, n);
            proof {
                assert(sub@ =~= s@.drop_first());
            }
            return trim_str(sub);
        }
        let cl = s.get_char(n - 1);
        if is_space_exec(cl) {
            let sub = s.substring_char(0, n - 1);
            proof {
                assert(sub@ =~= s@.drop_last());
            }
            return trim_str(sub);
        }
    }
    s.to_owned()
}

/// A decimal digit.
pub open spec fn is_digit(c: char) -> bool {
    48 <= c as int <= 57
}

/// The numeric value of a decimal digit.
pub open spec fn digit_val(c: char) -> int {
    c as int - 48
}

/// Whether every character of `s` is a decimal digit.
pub open spec fn all_digits(s: Seq<char>) -> bool {
    forall|i: int| 0 <= i < s.len() ==> is_digit(#[trigger] s[i])
}

/// The value of a digit string read in base ten.
pub open spec fn dec_value(s: Seq<char>) -> int
    decreases s.len(),
{
    if s.len() == 0 {
        0
    } else {
        dec_value(s.drop_last()) * 10 + digit_val(s.last())
    }
}

/// The value a well-formed signed decimal string denotes: an optional leading
/// plus or minus sign followed by one or more digits.
pub open spec fn spec_parse_signed(s: Seq<char>) -> Option<int> {
    if s.len() > 0 && (s[0] == '-' || s[0] == '+') {
        if s.len() > 1 && all_digits(s.subrange(1, s.len() as int)) {
            if s[0] == '-' {
                Some(-dec_value(s.subrange(1, s.len() as int)))
            } else {
                Some(dec_value(s.subrange(1, s.len() as int)))
            }
        } else {
            None
        }
    } else if s.len() > 0 && all_digits(s) {
        Some(dec_value(s))
    } else {
        None
    }
}

/// `spec_parse_signed`, restricted to values an `i32` can carry.
pub open spec fn spec_parse_i32(s: Seq<char>) -> Option<i32> {
    match spec_parse_signed(s) {
        Some(v) => if i32::MIN <= v <= i32::MAX {
            Some(v as i32)
        } else {
            None
        },
        None => None,
    }
}

proof fn lemma_dec_value_push(s: Seq<char>, c: char)
    ensures
        dec_value(s.push(c)) == dec_value(s) * 10 + digit_val(c),
{
    assert(s.push(c).drop_last() =~= s);
    assert(s.push(c).last() == c);
}

proof fn lemma_dec_value_nonneg(s: Seq<char>)
    requires
        all_digits(s),
    ensures
        dec_value(s) >= 0,
    decreases s.len(),
{
    if s.len() > 0 {
        assert(all_digits(s.drop_last())) by {
            assert(forall|i: int| 0 <= i < s.len() - 1 ==> s.drop_last()[i] == s[i]);
        }
        lemma_dec_value_nonneg(s.drop_last());
        assert(dec_value(s.drop_last()) * 10 >= 0) by (nonlinear_arith)
            requires
                dec_value(s.drop_last()) >= 0,
        ;
        assert(is_digit(s.last()));
    }
}

/// Cap past which the accumulator stops growing; it lies beyond every `i32`.
const SIG_CAP: i64 = 3000000000;

/// Parses a signed decimal integer, such as a signal level in dBm.
///
/// Returns `None` when the text is not an optional plus or minus sign
/// followed by one or more digits, or when the value does not fit an `i32`.
pub fn parse_signal_level(s: &str) -> (r: Option<i32>)
    ensures
        r == spec_parse_i32(s@),
{
    let n = s.unicode_len();
    if n == 0 {
        return None;
    }
    let c0 = s.get_char(0);
    let neg = c0 == '-';
    let signed = neg || c0 == '+';
    let start: usize = if signed {
        1
    } else {
        0
    };
    if start >= n {
        return None;
    }
    let mut acc: i64 = 0;
    let mut i: usize = start;
    while i < n
        invariant
            n == s@.len(),
            start < n,
            start <= i <= n,
            start == if signed { 1int } else { 0int },
            neg == (s@[0] == '-'),
            signed == (s@[0] == '-' || s@[0] == '+'),
            all_digits(s@.subrange(start as int, i as int)),
            0 <= acc <= SIG_CAP,
            dec_value(s@.subrange(start as int, i as int)) < SIG_CAP ==> acc == dec_value(
                s@.subrange(start as int, i as int),
            ),
            dec_value(s@.subrange(start as int, i as int)) >= SIG_CAP ==> acc == SIG_CAP,
        decreases n - i,
    {
        let c = s.get_char(i);
        let d: u32 = c as u32;
        if d < 48 || d > 57 {
            proof {
                assert(!is_digit(s@[i as int]));
                if signed {
                    assert(s@.subrange(1, n as int)[i - 1] == s@[i as int]);
                    assert(!all_digits(s@.subrange(1, n as int)));
                } else {
                    assert(!all_digits(s@));
                }
            }
            return None;
        }
        let ghost pfx = s@.subrange(start as int, i as int);
        let ghost pfx1 = s@.subrange(start as int, i + 1 as int);
        proof {
            assert(pfx.push(s@[i as int]) =~= pfx1);
            lemma_dec_value_push(pfx, s@[i as int]);
            lemma_dec_value_nonneg(pfx);
            if dec_value(pfx) >= SIG_CAP {
                assert(dec_value(pfx) * 10 >= dec_value(pfx)) by (nonlinear_arith)
                    requires
                        dec_value(pfx) >= 0,
                ;
            }
        }
        acc = acc * 10 + ((d - 48) as i64);
        if acc > SIG_CAP {
            acc = SIG_CAP;
        }
        i = i + 1;
    }
    let ghost ds = s@.subrange(start as int, n as int);
    proof {
        lemma_dec_value_nonneg(ds);
        if signed {
            assert(ds =~= s@.subrange(1, s@.len() as int));
        } else {
            assert(ds =~= s@);
        }
    }
    if neg {
        if acc > 2147483648 {
            return None;
        }
        proof {
            assert(dec_value(ds) == acc);
        }
        Some((-acc) as i32)
    } else {
        if acc > 2147483647 {
            return None;
        }
        proof {
            assert(dec_value(ds) == acc);
        }
        Some(acc as i32)
    }
}

} // verus!
