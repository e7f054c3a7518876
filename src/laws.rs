use crate::duration::{decimal, digit_char};
use crate::parser::{
    digit_run_len, digit_value, digits_value, is_digit, lemma_run_len_at_least, parse_duration,
    parse_tokens, unit_seconds, ParseError,
};
use crate::reminder::{elapsed_ms, ReminderState};
use vstd::prelude::*;

verus! {

/// The text of one `(magnitude, unit)` token: the magnitude in decimal, then the unit.
pub open spec fn token_text(t: (nat, char)) -> Seq<char> {
    decimal(t.0).push(t.1)
}

/// The text of a sequence of tokens, written one after the other.
pub open spec fn tokens_text(ts: Seq<(nat, char)>) -> Seq<char>
    decreases ts.len(),
{
    if ts.len() == 0 {
        Seq::empty()
    } else {
        token_text(ts[0]) + tokens_text(ts.drop_first())
    }
}

/// Every token's unit is one of `s`, `m`, `h`.
pub open spec fn valid_units(ts: Seq<(nat, char)>) -> bool {
    forall|i: int| 0 <= i < ts.len() ==> (#[trigger] unit_seconds(ts[i].1)) is Some
}

/// The seconds that the tokens stand for, summed in order.
pub open spec fn tokens_seconds(ts: Seq<(nat, char)>) -> nat
    decreases ts.len(),
{
    if ts.len() == 0 {
        0
    } else {
        let head = match unit_seconds(ts[0].1) {
            Some(m) => ts[0].0 * m,
            None => 0,
        };
        head + tokens_seconds(ts.drop_first())
    }
}

/// The sum of the magnitudes of the tokens whose unit is `u`.
pub open spec fn unit_sum(ts: Seq<(nat, char)>, u: char) -> nat
    decreases ts.len(),
{
    if ts.len() == 0 {
        0
    } else {
        (if ts[0].1 == u {
            ts[0].0
        } else {
            0
        }) + unit_sum(ts.drop_first(), u)
    }
}

proof fn lemma_digit_char(d: nat)
    requires
        d < 10,
    ensures
        is_digit(digit_char(d)),
        digit_value(digit_char(d)) == d,
{
}

proof fn lemma_decimal(n: nat)
    ensures
        decimal(n).len() >= 1,
        forall|i: int| 0 <= i < decimal(n).len() ==> is_digit(#[trigger] decimal(n)[i]),
        digits_value(decimal(n)) == n,
    decreases n,
{
    lemma_digit_char(n % 10);
    if n >= 10 {
        lemma_decimal(n / 10);
        let p = decimal(n / 10);
        assert(decimal(n).drop_last() =~= p);
        assert(decimal(n).last() == digit_char(n % 10));
        assert((n / 10) * 10 + n % 10 == n);
        assert forall|i: int| 0 <= i < decimal(n).len() implies is_digit(#[trigger] decimal(n)[i]) by {
            if i < p.len() {
                assert(decimal(n)[i] == p[i]);
            }
        }
    } else {
        assert(decimal(n).drop_last() =~= Seq::<char>::empty());
        assert(digits_value(Seq::<char>::empty()) == 0);
    }
}

proof fn lemma_tokens_seconds_append(a: Seq<(nat, char)>, b: Seq<(nat, char)>)
    ensures
        tokens_seconds(a + b) == tokens_seconds(a) + tokens_seconds(b),
    decreases a.len(),
{
    if a.len() > 0 {
        assert((a + b).drop_first() =~= a.drop_first() + b);
        lemma_tokens_seconds_append(a.drop_first(), b);
    } else {
        assert(a + b =~= b);
    }
}

proof fn lemma_unit_sums(ts: Seq<(nat, char)>)
    requires
        valid_units(ts),
    ensures
        tokens_seconds(ts) == unit_sum(ts, 's') + 60 * unit_sum(ts, 'm') + 3600 * unit_sum(ts, 'h'),
    decreases ts.len(),
{
    if ts.len() > 0 {
        let rest = ts.drop_first();
        assert(valid_units(rest)) by {
            assert forall|i: int| 0 <= i < rest.len() implies (#[trigger] unit_seconds(
                rest[i].1,
            )) is Some by {
                assert(rest[i] == ts[i + 1]);
            }
        }
        lemma_unit_sums(rest);
        assert(unit_seconds(ts[0].1) is Some);
        let (n, u) = ts[0];
        if u == 's' {
            assert(unit_seconds(u) == Some(1nat));
            assert(n * 1 == n);
            assert(tokens_seconds(ts) == n + tokens_seconds(rest));
        } else if u == 'm' {
            assert(tokens_seconds(ts) == n * 60 + tokens_seconds(rest));
        } else {
            assert(tokens_seconds(ts) == n * 3600 + tokens_seconds(rest));
        }
    }
}

/// Parsing a text that starts with well-formed tokens reads those tokens,
/// adds their seconds, and goes on with what follows them.
pub proof fn lemma_parse_tokens_prefix(ts: Seq<(nat, char)>, tail: Seq<char>, acc: nat)
    requires
        valid_units(ts),
        acc + tokens_seconds(ts) <= u64::MAX,
    ensures
        parse_tokens(tokens_text(ts) + tail, acc) == parse_tokens(tail, acc + tokens_seconds(ts)),
    decreases ts.len(),
{
    if ts.len() == 0 {
        assert(tokens_text(ts) + tail =~= tail);
    } else {
        let (n, u) = ts[0];
        let rest = ts.drop_first();
        let m = unit_seconds(u)->0;
        assert(unit_seconds(ts[0].1) is Some);
        assert(valid_units(rest)) by {
            assert forall|i: int| 0 <= i < rest.len() implies (#[trigger] unit_seconds(
                rest[i].1,
            )) is Some by {
                assert(rest[i] == ts[i + 1]);
            }
        }
        let d = decimal(n);
        let after = tokens_text(rest) + tail;
        let s = tokens_text(ts) + tail;
        assert(s =~= d + (seq![u] + after));
        lemma_decimal(n);
        assert forall|i: int| 0 <= i < d.len() implies is_digit(#[trigger] s[i]) by {
            assert(s[i] == d[i]);
        }
        assert(s[d.len() as int] == u);
        lemma_run_len_at_least(s, d.len());
        assert(digit_run_len(s) == d.len());
        assert(s.take(d.len() as int) =~= d);
        assert(s.skip(d.len() + 1 as int) =~= after);
        assert(n * m <= u64::MAX) by {
            assert(m == 1 || m == 60 || m == 3600);
        }
        assert(n <= n * m) by {
            assert(m >= 1);
            assert(n * m >= n * 1) by (nonlinear_arith)
                requires
                    m >= 1,
            ;
        }
        lemma_parse_tokens_prefix(rest, tail, acc + n * m);
    }
}

/// Writing any well-formed tokens out and parsing the text gives the sum of
/// the magnitudes per unit, weighted by the unit: repeated units add up.
pub proof fn lemma_tokens_round_trip(ts: Seq<(nat, char)>)
    requires
        ts.len() > 0,
        valid_units(ts),
        unit_sum(ts, 's') + 60 * unit_sum(ts, 'm') + 3600 * unit_sum(ts, 'h') <= u64::MAX,
    ensures
        parse_duration(tokens_text(ts)) == Ok::<nat, ParseError>(
            unit_sum(ts, 's') + 60 * unit_sum(ts, 'm') + 3600 * unit_sum(ts, 'h'),
        ),
{
    lemma_unit_sums(ts);
    lemma_parse_tokens_prefix(ts, Seq::empty(), 0);
    assert(tokens_text(ts) + Seq::<char>::empty() =~= tokens_text(ts));
    lemma_decimal(ts[0].0);
    assert(tokens_text(ts).len() > 0);
}

proof fn lemma_tokens_text_append(a: Seq<(nat, char)>, b: Seq<(nat, char)>)
    ensures
        tokens_text(a + b) == tokens_text(a) + tokens_text(b),
    decreases a.len(),
{
    if a.len() > 0 {
        assert((a + b).drop_first() =~= a.drop_first() + b);
        lemma_tokens_text_append(a.drop_first(), b);
        assert(tokens_text(a + b) =~= tokens_text(a) + tokens_text(b));
    } else {
        assert(a + b =~= b);
        assert(tokens_text(a) + tokens_text(b) =~= tokens_text(b));
    }
}

/// The order of tokens does not change the total: two runs of tokens parse
/// the same in either order.
pub proof fn lemma_order_independent(a: Seq<(nat, char)>, b: Seq<(nat, char)>)
    requires
        a.len() + b.len() > 0,
        valid_units(a),
        valid_units(b),
        tokens_seconds(a) + tokens_seconds(b) <= u64::MAX,
    ensures
        parse_duration(tokens_text(a + b)) == parse_duration(tokens_text(b + a)),
        parse_duration(tokens_text(a + b)) == Ok::<nat, ParseError>(
            tokens_seconds(a) + tokens_seconds(b),
        ),
{
    assert(valid_units(a + b)) by {
        assert forall|i: int| 0 <= i < (a + b).len() implies (#[trigger] unit_seconds(
            (a + b)[i].1,
        )) is Some by {
            if i >= a.len() {
                assert((a + b)[i] == b[i - a.len()]);
            }
        }
    }
    assert(valid_units(b + a)) by {
        assert forall|i: int| 0 <= i < (b + a).len() implies (#[trigger] unit_seconds(
            (b + a)[i].1,
        )) is Some by {
            if i >= b.len() {
                assert((b + a)[i] == a[i - b.len()]);
            }
        }
    }
    lemma_tokens_seconds_append(a, b);
    lemma_tokens_seconds_append(b, a);
    lemma_unit_sums(a + b);
    lemma_unit_sums(b + a);
    lemma_tokens_round_trip(a + b);
    lemma_tokens_round_trip(b + a);
}

/// After well-formed tokens, a run of digits that ends the text fails with
/// `MissingSuffix`.
pub proof fn lemma_missing_suffix(ts: Seq<(nat, char)>, digits: Seq<char>)
    requires
        valid_units(ts),
        tokens_seconds(ts) <= u64::MAX,
        digits.len() > 0,
        forall|i: int| 0 <= i < digits.len() ==> is_digit(#[trigger] digits[i]),
        digits_value(digits) <= u64::MAX,
    ensures
        parse_duration(tokens_text(ts) + digits) == Err::<nat, ParseError>(
            ParseError::MissingSuffix,
        ),
{
    lemma_parse_tokens_prefix(ts, digits, 0);
    lemma_run_len_at_least(digits, digits.len());
    assert(digits.take(digits.len() as int) =~= digits);
}

/// After well-formed tokens, a run of digits followed by a character that is
/// neither a digit nor one of `s`, `m`, `h` fails with `InvalidSuffix`,
/// whatever comes after it.
pub proof fn lemma_invalid_suffix(
    ts: Seq<(nat, char)>,
    digits: Seq<char>,
    suffix: char,
    rest: Seq<char>,
)
    requires
        valid_units(ts),
        tokens_seconds(ts) <= u64::MAX,
        digits.len() > 0,
        forall|i: int| 0 <= i < digits.len() ==> is_digit(#[trigger] digits[i]),
        digits_value(digits) <= u64::MAX,
        !is_digit(suffix),
        unit_seconds(suffix) is None,
    ensures
        parse_duration(tokens_text(ts) + digits + seq![suffix] + rest) == Err::<nat, ParseError>(
            ParseError::InvalidSuffix,
        ),
{
    let tail = digits + seq![suffix] + rest;
    assert(tokens_text(ts) + digits + seq![suffix] + rest =~= tokens_text(ts) + tail);
    lemma_parse_tokens_prefix(ts, tail, 0);
    assert forall|i: int| 0 <= i < digits.len() implies is_digit(#[trigger] tail[i]) by {
        assert(tail[i] == digits[i]);
    }
    assert(tail[digits.len() as int] == suffix);
    lemma_run_len_at_least(tail, digits.len());
    assert(tail.take(digits.len() as int) =~= digits);
}

/// Polling with no more than the interval passed since the last
/// acknowledgment leaves the state idle; with more passed it turns to
/// reminding, marking the start once, and later polls keep it reminding with
/// the same start until an acknowledgment.
pub proof fn lemma_poll_transitions(s: ReminderState, t1: u64, t2: u64, interval_secs: u64)
    requires
        s.last_acknowledged <= t1 <= t2,
    ensures
        elapsed_ms(s.last_acknowledged, t1) <= interval_secs * 1000 ==> !s.polled(
            t1,
            interval_secs,
        ).reminding,
        elapsed_ms(s.last_acknowledged, t1) > interval_secs * 1000 ==> {
            let s1 = s.polled(t1, interval_secs);
            let s2 = s1.polled(t2, interval_secs);
            &&& s1.reminding
            &&& !s.reminding ==> s1.reminding_since == t1
            &&& s2.reminding
            &&& s2.reminding_since == s1.reminding_since
            &&& s2.last_acknowledged == s.last_acknowledged
        },
{
}

/// Acknowledging returns any state to idle with the countdown restarted at
/// the acknowledgment, so a poll at that same moment stays idle.
pub proof fn lemma_acknowledge_resets(s: ReminderState, now: u64, interval_secs: u64)
    ensures
        !s.acknowledged(now).reminding,
        s.acknowledged(now).last_acknowledged == now,
        !s.acknowledged(now).polled(now, interval_secs).reminding,
        forall|t: u64|
            now <= t && elapsed_ms(now, t) <= interval_secs * 1000 ==> !(#[trigger] s.acknowledged(
                now,
            ).polled(t, interval_secs)).reminding,
{
}

} // verus!
