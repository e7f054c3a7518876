use crate::duration::Duration;
use vstd::prelude::*;

verus! {

/// Why a duration string was refused.
#[derive(Debug, Clone, Copy, PartialEq, Eq, Structural)]
pub enum ParseError {
    /// No digits at the cursor; also an empty or blank input.
    EmptyOrInvalid,
    /// A magnitude or the running total does not fit in 64 bits.
    NumericOverflow,
    /// The input ends right after a run of digits.
    MissingSuffix,
    /// The character after a run of digits is none of `s`, `m`, `h`.
    InvalidSuffix,
}

pub open spec fn is_digit(c: char) -> bool {
    '0' <= c && c <= '9'
}

pub open spec fn digit_value(c: char) -> nat {
    ((c as u32) - 48) as nat
}

/// The value of a run of decimal digits.
pub open spec fn digits_value(d: Seq<char>) -> nat
    decreases d.len(),
{
    if d.len() == 0 {
        0
    } else {
        digits_value(d.drop_last()) * 10 + digit_value(d.last())
    }
}

/// The length of the run of digits that `s` starts with.
pub open spec fn digit_run_len(s: Seq<char>) -> nat
    decreases s.len(),
{
    if s.len() > 0 && is_digit(s[0]) {
        1 + digit_run_len(s.drop_first())
    } else {
        0
    }
}

/// Seconds per unit: `s`, `m` and `h`; other characters are no unit.
pub open spec fn unit_seconds(c: char) -> Option<nat> {
    if c == 's' {
        Some(1)
    } else if c == 'm' {
        Some(60)
    } else if c == 'h' {
        Some(3600)
    } else {
        None
    }
}

/// Reads `(<digits><unit>)*` from `s` left to right, adding each token's
/// seconds to `total`; the first failing step decides the error.
pub open spec fn parse_tokens(s: Seq<char>, total: nat) -> Result<nat, ParseError>
    decreases s.len(),
{
    if s.len() == 0 {
        Ok(total)
    } else {
        let n = digit_run_len(s);
        let magnitude = digits_value(s.take(n as int));
        if n == 0 {
            Err(ParseError::EmptyOrInvalid)
        } else if magnitude > u64::MAX {
            Err(ParseError::NumericOverflow)
        } else if n >= s.len() {
            Err(ParseError::MissingSuffix)
        } else {
            match unit_seconds(s[n as int]) {
                None => Err(ParseError::InvalidSuffix),
                Some(m) => {
                    let t = total + magnitude * m;
                    if t > u64::MAX {
                        Err(ParseError::NumericOverflow)
                    } else {
                        parse_tokens(s.skip(n + 1 as int), t)
                    }
                },
            }
        }
    }
}

/// The total in seconds of a whole (already trimmed) duration string.
pub open spec fn parse_duration(s: Seq<char>) -> Result<nat, ParseError> {
    if s.len() == 0 {
        Err(ParseError::EmptyOrInvalid)
    } else {
        parse_tokens(s, 0)
    }
}

/// What is left of `s` from character position `pos` on.
pub open spec fn rest_from(s: Seq<char>, pos: nat) -> Seq<char> {
    if pos <= s.len() {
        s.skip(pos as int)
    } else {
        Seq::empty()
    }
}

/// What `DurationParser::get` yields for `text` with the cursor at `pos`.
pub open spec fn parse_at(text: Seq<char>, pos: nat) -> Result<nat, ParseError> {
    if text.len() == 0 {
        Err(ParseError::EmptyOrInvalid)
    } else {
        parse_tokens(rest_from(text, pos), 0)
    }
}

/// A result in seconds, as the spec functions above state it.
pub open spec fn seconds_of(r: Result<Duration, ParseError>) -> Result<nat, ParseError> {
    match r {
        Ok(d) => Ok(d.secs as nat),
        Err(e) => Err(e),
    }
}

pub uninterp spec fn trimmed(s: Seq<char>) -> Seq<char>;

pub open spec fn is_ascii_space(c: char) -> bool {
    c == ' ' || c == '\t' || c == '\n' || c == '\x0B' || c == '\x0C' || c == '\r'
}

pub open spec fn is_ascii_alnum(c: char) -> bool {
    ('0' <= c && c <= '9') || ('a' <= c && c <= 'z') || ('A' <= c && c <= 'Z')
}

/// Relies on `str::trim`: it removes leading and trailing Unicode white space
/// (ASCII space, tab, line feed, vertical tab, form feed and carriage return
/// among it) and nothing else, so a text of such characters alone becomes empty
/// and a text that starts and ends with ASCII letters or digits stays as it is.
#[verifier::external_body]
fn trim(s: &str) -> (r: &str)
    ensures
        r@ == trimmed(s@),
        (forall|i: int| 0 <= i < s@.len() ==> is_ascii_space(#[trigger] s@[i])) ==> r@.len()
            == 0,
        s@.len() > 0 && is_ascii_alnum(s@[0]) && is_ascii_alnum(s@.last()) ==> r@ == s@,
{
    s.trim()
}

pub(crate) proof fn lemma_run_len_at_least(s: Seq<char>, k: nat)
    requires
        k <= s.len(),
        forall|i: int| 0 <= i < k ==> is_digit(#[trigger] s[i]),
    ensures
        digit_run_len(s) >= k,
        k == s.len() || !is_digit(s[k as int]) ==> digit_run_len(s) == k,
    decreases k,
{
    if k > 0 {
        let t = s.drop_first();
        assert forall|i: int| 0 <= i < (k - 1) as nat implies is_digit(#[trigger] t[i]) by {
            assert(t[i] == s[i + 1]);
        }
        lemma_run_len_at_least(t, (k - 1) as nat);
        if k < s.len() {
            assert(t[k - 1] == s[k as int]);
        }
    }
}

pub(crate) proof fn lemma_run_len_bound(s: Seq<char>)
    ensures
        digit_run_len(s) <= s.len(),
        forall|i: int| 0 <= i < digit_run_len(s) ==> is_digit(#[trigger] s[i]),
    decreases s.len(),
{
    if s.len() > 0 && is_digit(s[0]) {
        let t = s.drop_first();
        lemma_run_len_bound(t);
        assert forall|i: int| 0 <= i < digit_run_len(s) implies is_digit(#[trigger] s[i]) by {
            if i > 0 {
                assert(s[i] == t[i - 1]);
            }
        }
    }
}

proof fn lemma_digits_value_mono(d: Seq<char>, a: nat, b: nat)
    requires
        a <= b <= d.len(),
    ensures
        digits_value(d.take(a as int)) <= digits_value(d.take(b as int)),
    decreases b,
{
    if a < b {
        lemma_digits_value_mono(d, a, (b - 1) as nat);
        assert(d.take(b as int).drop_last() =~= d.take(b - 1));
    }
}

/// A cursor over a trimmed duration string.
#[derive(Debug)]
pub struct DurationParser {
    value: String,
    pos: usize,
}

impl DurationParser {
    /// The trimmed text being parsed.
    pub closed spec fn text(&self) -> Seq<char> {
        self.value@
    }

    /// The cursor, as a character position in `text()`.
    pub closed spec fn cursor(&self) -> nat {
        self.pos as nat
    }

    /// A parser over `value` with surrounding white space removed.
    pub fn new(value: &str) -> (r: DurationParser)
        ensures
            r.text() == trimmed(value@),
            r.cursor() == 0,
            (forall|i: int| 0 <= i < value@.len() ==> is_ascii_space(#[trigger] value@[i]))
                ==> r.text().len() == 0,
            value@.len() > 0 && is_ascii_alnum(value@[0]) && is_ascii_alnum(value@.last())
                ==> r.text() == value@,
    {
        DurationParser { value: trim(value).to_owned(), pos: 0 }
    }

    /// Reads the whole duration from the cursor to the end of the text.
    pub fn get(&mut self) -> (r: Result<Duration, ParseError>)
        ensures
            seconds_of(r) == parse_at(old(self).text(), old(self).cursor()),
            old(self).text().len() == 0 ==> r == Err::<Duration, ParseError>(
                ParseError::EmptyOrInvalid,
            ),
            final(self).text() == old(self).text(),
            r is Ok ==> final(self).cursor() == old(self).text().len() || old(self).cursor()
                > old(self).text().len(),
    {
        let len = self.value.as_str().unicode_len();
        if len == 0 {
            return Err(ParseError::EmptyOrInvalid);
        }
        let ghost text = self.value@;
        let ghost start = self.pos as nat;
        let mut sec_duration: u64 = 0;
        proof {
            if self.pos <= len {
                assert(text.skip(self.pos as int) == rest_from(text, start));
            }
        }
        while self.pos < len
            invariant
                self.value@ == text,
                text == old(self).value@,
                start == old(self).pos,
                len == text.len(),
                len > 0,
                start <= self.pos <= len || (start > len && self.pos == start),
                parse_at(text, start) == if self.pos <= len {
                    parse_tokens(text.skip(self.pos as int), sec_duration as nat)
                } else {
                    Ok(0)
                },
                start <= len ==> self.pos <= len,
                start > len ==> sec_duration == 0,
            decreases len - self.pos,
        {
            let ghost s = text.skip(self.pos as int);
            let ghost p = self.pos as nat;
            assert(s.len() > 0);
            let raw_time = match self.parse_number(len) {
                Ok(v) => v,
                Err(e) => {
                    return Err(e);
                },
            };
            let time_mult = match self.parse_suffix_into_multiplier(len) {
                Ok(m) => m,
                Err(e) => {
                    return Err(e);
                },
            };
            let ghost n = digit_run_len(s);
            proof {
                assert(text.skip(self.pos as int) =~= s.skip(n + 1 as int));
            }
            let part = match raw_time.checked_mul(time_mult) {
                Some(v) => v,
                None => {
                    proof {
                        assert(sec_duration + raw_time * time_mult > u64::MAX);
                    }
                    return Err(ParseError::NumericOverflow);
                },
            };
            sec_duration = match sec_duration.checked_add(part) {
                Some(v) => v,
                None => {
                    return Err(ParseError::NumericOverflow);
                },
            };
        }
        proof {
            if start <= len {
                assert(text.skip(self.pos as int).len() == 0);
            }
        }
        Ok(Duration::from_secs(sec_duration))
    }

    /// Reads the run of digits at the cursor as a 64-bit magnitude.
    fn parse_number(&mut self, len: usize) -> (r: Result<u64, ParseError>)
        requires
            len == old(self).value@.len(),
            old(self).pos < len,
        ensures
            final(self).value@ == old(self).value@,
            ({
                let s = old(self).value@.skip(old(self).pos as int);
                let n = digit_run_len(s);
                let magnitude = digits_value(s.take(n as int));
                if n == 0 {
                    r == Err::<u64, ParseError>(ParseError::EmptyOrInvalid)
                } else if magnitude > u64::MAX {
                    r == Err::<u64, ParseError>(ParseError::NumericOverflow)
                } else {
                    &&& r == Ok::<u64, ParseError>(magnitude as u64)
                    &&& final(self).pos == old(self).pos + n
                    &&& final(self).pos <= len
                }
            }),
    {
        let ghost s = self.value@.skip(self.pos as int);
        let start = self.pos;
        let mut j = start;
        let mut value: u64 = 0;
        loop
            invariant
                self.value@ == old(self).value@,
                self.pos == start,
                start == old(self).pos,
                len == self.value@.len(),
                s == self.value@.skip(start as int),
                start <= j <= len,
                forall|i: int| 0 <= i < j - start ==> is_digit(#[trigger] s[i]),
                value == digits_value(s.take(j - start)),
            ensures
                start <= j <= len,
                forall|i: int| 0 <= i < j - start ==> is_digit(#[trigger] s[i]),
                value == digits_value(s.take(j - start)),
                j == len || !is_digit(s[j - start]),
            decreases len - j,
        {
            if j >= len {
                break;
            }
            let c = self.value.as_str().get_char(j);
            if !('0' <= c && c <= '9') {
                assert(s[j - start] == c);
                break;
            }
            let ghost k = (j - start) as nat;
            assert(s.take(k + 1 as int).drop_last() =~= s.take(k as int));
            assert(s.take(k + 1 as int).last() == c);
            proof {
                lemma_run_len_at_least(s, k + 1);
                lemma_run_len_bound(s);
                lemma_digits_value_mono(s, k + 1, digit_run_len(s));
            }
            let d = (c as u32 - 48) as u64;
            let shifted = match value.checked_mul(10) {
                Some(v) => v,
                None => {
                    return Err(ParseError::NumericOverflow);
                },
            };
            value = match shifted.checked_add(d) {
                Some(v) => v,
                None => {
                    return Err(ParseError::NumericOverflow);
                },
            };
            j = j + 1;
        }
        proof {
            lemma_run_len_at_least(s, (j - start) as nat);
            lemma_run_len_bound(s);
        }
        if j == start {
            return Err(ParseError::EmptyOrInvalid);
        }
        self.pos = j;
        Ok(value)
    }

    /// Reads the unit character at the cursor as a multiplier in seconds.
    fn parse_suffix_into_multiplier(&mut self, len: usize) -> (r: Result<u64, ParseError>)
        requires
            len == old(self).value@.len(),
            old(self).pos <= len,
        ensures
            final(self).value@ == old(self).value@,
            old(self).pos == len ==> r == Err::<u64, ParseError>(ParseError::MissingSuffix),
            old(self).pos < len ==> final(self).pos == old(self).pos + 1 && match unit_seconds(
                old(self).value@[old(self).pos as int],
            ) {
                None => r == Err::<u64, ParseError>(ParseError::InvalidSuffix),
                Some(m) => r == Ok::<u64, ParseError>(m as u64),
            },
    {
        if self.pos >= len {
            return Err(ParseError::MissingSuffix);
        }
        let c = self.value.as_str().get_char(self.pos);
        self.pos = self.pos + 1;
        if c == 's' {
            Ok(1)
        } else if c == 'm' {
            Ok(60)
        } else if c == 'h' {
            Ok(60 * 60)
        } else {
            Err(ParseError::InvalidSuffix)
        }
    }
}

} // verus!
