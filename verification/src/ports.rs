//! Parsing a switch's port-list configuration.
//!
//! The list is a comma-separated string of tokens, each a single port
//! (`"7"`) or an inclusive range (`"5-8"`), one or two digits a side.
//! An invalid token — non-digits, too many digits, a reversed range —
//! is skipped without aborting the rest of the list.

use vstd::prelude::*;

use crate::chars::{
    digit_val, digit_val_exec, is_digit, is_digit_exec, is_space, is_space_exec, str_chars,
};
use crate::config::HPSwitchConfig;

verus! {

/// The token with its leading whitespace removed.
pub open spec fn trim_front(s: Seq<char>) -> Seq<char>
    decreases s.len(),
{
    if s.len() > 0 && is_space(s[0]) {
        trim_front(s.drop_first())
    } else {
        s
    }
}

/// The token with its trailing whitespace removed.
pub open spec fn trim_back(s: Seq<char>) -> Seq<char>
    decreases s.len(),
{
    if s.len() > 0 && is_space(s.last()) {
        trim_back(s.drop_last())
    } else {
        s
    }
}

/// The token with whitespace removed on both sides.
pub open spec fn spec_trim(s: Seq<char>) -> Seq<char> {
    trim_back(trim_front(s))
}

/// A bare port token: one or two decimal digits.
pub open spec fn is_port_token(t: Seq<char>) -> bool {
    1 <= t.len() <= 2 && forall|i: int| 0 <= i < t.len() ==> is_digit(#[trigger] t[i])
}

/// The value of a one- or two-digit token.
pub open spec fn token_value(t: Seq<char>) -> u8
    recommends
        is_port_token(t),
{
    if t.len() == 1 {
        digit_val(t[0])
    } else {
        (digit_val(t[0]) as int * 10 + digit_val(t[1]) as int) as u8
    }
}

/// What one trimmed token denotes: `Some((from, to))` with inclusive
/// bounds for a valid single port or range, `None` for an invalid
/// token (non-digits, more than two digits a side, a reversed range).
pub open spec fn spec_parse_token(raw: Seq<char>) -> Option<(u8, u8)> {
    let t = spec_trim(raw);
    if is_port_token(t) {
        Some((token_value(t), token_value(t)))
    } else if t.len() >= 3 && is_digit(t[0]) {
        let k: int = if t[1] == '-' {
            1
        } else {
            2
        };
        if t[k] == '-' && is_port_token(t.subrange(0, k)) && is_port_token(
            t.subrange(k + 1, t.len() as int),
        ) {
            let f = token_value(t.subrange(0, k));
            let e = token_value(t.subrange(k + 1, t.len() as int));
            if f <= e {
                Some((f, e))
            } else {
                None
            }
        } else {
            None
        }
    } else {
        None
    }
}

/// The ports `from ..= to`, in ascending order.
pub open spec fn range_seq(from: u8, to: u8) -> Seq<u8>
    recommends
        from <= to,
{
    Seq::new((to - from + 1) as nat, |i: int| (from + i) as u8)
}

/// The ports one token contributes: its range, or nothing if invalid.
pub open spec fn expand_token(t: Seq<char>) -> Seq<u8> {
    match spec_parse_token(t) {
        Some(p) => range_seq(p.0, p.1),
        None => Seq::empty(),
    }
}

/// The comma-separated tokens of `s` from `cur` on, the current token
/// having started at `start`.
pub open spec fn split_commas_from(s: Seq<char>, start: int, cur: int) -> Seq<Seq<char>>
    recommends
        0 <= start <= cur <= s.len(),
    decreases s.len() - cur,
{
    if cur >= s.len() {
        seq![s.subrange(start, s.len() as int)]
    } else if s[cur] == ',' {
        seq![s.subrange(start, cur)] + split_commas_from(s, cur + 1, cur + 1)
    } else {
        split_commas_from(s, start, cur + 1)
    }
}

/// The comma-separated tokens of the whole string.
pub open spec fn split_commas(s: Seq<char>) -> Seq<Seq<char>> {
    split_commas_from(s, 0, 0)
}

/// The concatenated expansions of the tokens from index `i` on.
pub open spec fn expand_all_from(ts: Seq<Seq<char>>, i: int) -> Seq<u8>
    decreases ts.len() - i,
{
    if i >= ts.len() {
        Seq::empty()
    } else {
        expand_token(ts[i]) + expand_all_from(ts, i + 1)
    }
}

/// Every port the whole specification string denotes, in order of
/// appearance: valid tokens expanded, invalid tokens skipped.
pub open spec fn spec_port_list(s: Seq<char>) -> Seq<u8> {
    expand_all_from(split_commas(s), 0)
}

/// An inclusive range of switch ports.
pub struct PortRange {
    pub from: u8,
    pub to: u8,
}

/// Parse one token of the port specification.  `None` marks an invalid
/// token, to be skipped and logged by the caller.
pub fn generate_port_range(port_str: &str) -> (r: Option<PortRange>)
    ensures
        match r {
            Some(pr) => spec_parse_token(port_str@) == Some((pr.from, pr.to)) && pr.from <= pr.to,
            None => spec_parse_token(port_str@) is None,
        },
{
    let chars = str_chars(port_str);
    parse_token_chars(&chars)
}

fn parse_token_chars(t: &Vec<char>) -> (r: Option<PortRange>)
    ensures
        match r {
            Some(pr) => spec_parse_token(t@) == Some((pr.from, pr.to)) && pr.from <= pr.to,
            None => spec_parse_token(t@) is None,
        },
{
    let ghost whole = t@;
    // Trim: find the window [lo, hi) that remains.
    let mut lo: usize = 0;
    let mut hi: usize = t.len();
    proof {
        assert(whole.subrange(0, whole.len() as int) =~= whole);
    }
    while lo < hi && is_space_exec(t[lo])
        invariant
            whole == t@,
            lo <= hi <= t.len(),
            hi == t.len(),
            trim_front(whole) == trim_front(whole.subrange(lo as int, t@.len() as int)),
        decreases hi - lo,
    {
        proof {
            assert(whole.subrange(lo as int, whole.len() as int).drop_first() =~= whole.subrange(
                lo as int + 1,
                whole.len() as int,
            ));
        }
        lo += 1;
    }
    proof {
        assert(trim_front(whole) == whole.subrange(lo as int, whole.len() as int));
    }
    while hi > lo && is_space_exec(t[hi - 1])
        invariant
            whole == t@,
            lo <= hi <= t.len(),
            trim_front(whole) == whole.subrange(lo as int, whole.len() as int),
            trim_back(whole.subrange(lo as int, whole.len() as int)) == trim_back(
                whole.subrange(lo as int, hi as int),
            ),
        decreases hi,
    {
        proof {
            assert(whole.subrange(lo as int, hi as int).last() == whole[hi - 1]);
            assert(whole.subrange(lo as int, hi as int).drop_last() =~= whole.subrange(
                lo as int,
                hi as int - 1,
            ));
        }
        hi -= 1;
    }
    proof {
        assert(spec_trim(whole) == whole.subrange(lo as int, hi as int));
    }
    let ghost tr = spec_trim(whole);
    let n = hi - lo;
    proof {
        assert(tr.len() == n as int);
        assert(forall|j: int| 0 <= j < n as int ==> tr[j] == whole[lo + j]);
    }
    // Single port: one or two digits.
    if n >= 1 && n <= 2 {
        let mut all_digits = true;
        if !is_digit_exec(t[lo]) {
            all_digits = false;
        }
        if n == 2 && !is_digit_exec(t[lo + 1]) {
            all_digits = false;
        }
        if all_digits {
            let v = read_value(t, lo, n);
            proof {
                assert(is_port_token(tr));
                assert(tr =~= whole.subrange(lo as int, lo as int + n as int));
            }
            return Some(PortRange { from: v, to: v });
        }
        proof {
            assert(!is_port_token(tr));
            assert(tr.len() < 3);
        }
        return None;
    }
    // Range: digits, a dash after one or two of them, digits.
    if n >= 3 && is_digit_exec(t[lo]) {
        let k: usize = if t[lo + 1] == '-' {
            1
        } else {
            2
        };
        let left_ok = k == 1 || is_digit_exec(t[lo + 1]);
        let dash_ok = k < n && t[lo + k] == '-';
        let right_len = if k < n {
            n - k - 1
        } else {
            0
        };
        let mut right_ok = 1 <= right_len && right_len <= 2;
        if right_ok && !is_digit_exec(t[lo + k + 1]) {
            right_ok = false;
        }
        if right_ok && right_len == 2 && !is_digit_exec(t[lo + k + 2]) {
            right_ok = false;
        }
        if left_ok && dash_ok && right_ok {
            let f = read_value(t, lo, k);
            let e = read_value(t, lo + k + 1, right_len);
            proof {
                assert(tr.subrange(0, k as int) =~= whole.subrange(
                    lo as int,
                    lo as int + k as int,
                ));
                assert(tr.subrange(k as int + 1, tr.len() as int) =~= whole.subrange(
                    lo as int + k as int + 1,
                    lo as int + k as int + 1 + right_len as int,
                ));
                assert(is_port_token(tr.subrange(0, k as int)));
                assert(is_port_token(tr.subrange(k as int + 1, tr.len() as int)));
            }
            if f <= e {
                return Some(PortRange { from: f, to: e });
            } else {
                return None;
            }
        }
        proof {
            assert(!is_port_token(tr));
            let sk: int = if tr[1] == '-' {
                1
            } else {
                2
            };
            assert(sk == k as int);
            if tr[sk] == '-' {
                if is_port_token(tr.subrange(0, sk)) && is_port_token(
                    tr.subrange(sk + 1, tr.len() as int),
                ) {
                    assert(dash_ok);
                    assert(tr.subrange(0, sk) =~= whole.subrange(lo as int, lo as int + sk));
                    assert(tr.subrange(sk + 1, tr.len() as int) =~= whole.subrange(
                        lo as int + sk + 1,
                        hi as int,
                    ));
                    assert(left_ok);
                    assert(right_ok);
                    assert(false);
                }
            }
        }
        return None;
    }
    proof {
        assert(!is_port_token(tr));
        assert(!(tr.len() >= 3 && is_digit(tr[0])));
    }
    None
}

/// The value of the one- or two-digit run at `[start, start + len)`.
fn read_value(t: &Vec<char>, start: usize, len: usize) -> (r: u8)
    requires
        1 <= len <= 2,
        start + len <= t.len(),
        forall|j: int| start as int <= j < start as int + len as int ==> is_digit(#[trigger] t@[j]),
    ensures
        r == token_value(t@.subrange(start as int, start as int + len as int)),
        r <= 99,
{
    if len == 1 {
        let v = digit_val_exec(t[start]);
        proof {
            assert(t@.subrange(start as int, start as int + 1)[0] == t@[start as int]);
        }
        v
    } else {
        let v = digit_val_exec(t[start]) * 10 + digit_val_exec(t[start + 1]);
        proof {
            let sub = t@.subrange(start as int, start as int + 2);
            assert(sub[0] == t@[start as int]);
            assert(sub[1] == t@[start as int + 1]);
        }
        v
    }
}

/// The switch's configured client ports, expanded from its port
/// specification string; invalid tokens contribute nothing.
pub fn get_port_list(switch_config: &HPSwitchConfig) -> (r: Vec<u8>)
    ensures
        r@ == spec_port_list(switch_config.ports@),
{
    let chars = str_chars(switch_config.ports.as_str());
    let ghost s = chars@;
    let n = chars.len();
    // Split on commas.
    let mut tokens: Vec<Vec<char>> = Vec::new();
    let mut tok: Vec<char> = Vec::new();
    let mut start: usize = 0;
    let mut cur: usize = 0;
    while cur < n
        invariant
            s == chars@,
            n == s.len(),
            start <= cur <= n,
            tok@ == s.subrange(start as int, cur as int),
            split_commas(s) == tokens.deep_view() + split_commas_from(s, start as int, cur as int),
        decreases n - cur,
    {
        if chars[cur] == ',' {
            let ghost before = tokens.deep_view();
            tokens.push(tok);
            tok = Vec::new();
            proof {
                assert(tokens.deep_view() =~~= before.push(s.subrange(start as int, cur as int)));
                assert(split_commas(s) == tokens.deep_view() + split_commas_from(
                    s,
                    cur as int + 1,
                    cur as int + 1,
                ));
                assert(Seq::<char>::empty() =~= s.subrange(cur as int + 1, cur as int + 1));
            }
            start = cur + 1;
        } else {
            tok.push(chars[cur]);
            proof {
                assert(tok@ =~= s.subrange(start as int, cur as int + 1));
            }
        }
        cur += 1;
    }
    let ghost before = tokens.deep_view();
    tokens.push(tok);
    proof {
        assert(tokens.deep_view() =~~= before.push(s.subrange(start as int, n as int)));
        assert(split_commas(s) =~~= tokens.deep_view());
    }
    // Expand each token.
    let ghost ts = tokens.deep_view();
    let mut out: Vec<u8> = Vec::new();
    let mut i: usize = 0;
    while i < tokens.len()
        invariant
            ts == tokens.deep_view(),
            i <= tokens.len(),
            expand_all_from(ts, 0) == out@ + expand_all_from(ts, i as int),
        decreases tokens.len() - i,
    {
        let ghost out_before = out@;
        let parsed = parse_token_chars(&tokens[i]);
        proof {
            assert(ts[i as int] =~= tokens@[i as int]@);
        }
        match parsed {
            Some(pr) => {
                push_range(&mut out, pr.from, pr.to);
                proof {
                    assert(out@ == out_before + range_seq(pr.from, pr.to));
                    assert(expand_token(ts[i as int]) == range_seq(pr.from, pr.to));
                }
            },
            None => {
                proof {
                    assert(expand_token(ts[i as int]) =~= Seq::<u8>::empty());
                    assert(out@ =~= out_before + expand_token(ts[i as int]));
                }
            },
        }
        i += 1;
        proof {
            assert(out@ + expand_all_from(ts, i as int) =~= out_before + (expand_token(
                ts[i - 1],
            ) + expand_all_from(ts, i as int)));
        }
    }
    proof {
        assert(expand_all_from(ts, tokens.len() as int) =~= Seq::<u8>::empty());
        assert(out@ =~= out@ + expand_all_from(ts, tokens.len() as int));
    }
    out
}

/// Append the ports `from ..= to` in ascending order.
fn push_range(out: &mut Vec<u8>, from: u8, to: u8)
    requires
        from <= to,
    ensures
        final(out)@ == old(out)@ + range_seq(from, to),
{
    let ghost before = out@;
    let count: usize = (to - from) as usize + 1;
    let mut k: usize = 0;
    while k < count
        invariant
            from <= to,
            count == (to - from) as usize + 1,
            k <= count,
            out@ =~= before + range_seq(from, to).take(k as int),
        decreases count - k,
    {
        out.push(from + (k as u8));
        k += 1;
        proof {
            assert(out@ =~= before + range_seq(from, to).take(k as int));
        }
    }
    proof {
        assert(range_seq(from, to).take(count as int) =~= range_seq(from, to));
    }
}

} // verus!
