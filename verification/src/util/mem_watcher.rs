//! Memory usage information, read from the text of `/proc/[pid]/statm`.

use vstd::prelude::*;
use vstd::string::*;
use crate::util::{blank, is_blank, skip_blanks};

verus! {

/// Memory usage information processed from `/proc/[pid]/statm`.
///
/// All values are in units of pages.
///
/// See `man 5 proc` and `Linux/fs/proc/array.c`.
#[derive(Debug, Default, PartialEq, Eq, Hash, Structural)]
pub struct Statm {
    /// Total virtual memory size.
    pub size: usize,
    /// Resident non-swapped memory.
    pub resident: usize,
    /// Shared memory.
    pub share: usize,
    /// Resident executable memory.
    pub text: usize,
    /// Resident data and stack memory.
    pub data: usize,
}

/// Why the text of a statm file could not be read.
#[derive(Debug, PartialEq, Eq)]
pub enum StatmError {
    /// The text does not start with seven numbers separated by single spaces.
    Unparsable,
    /// The seven numbers are followed by more text, which is given.
    Trailing(String),
}

/// The resident set size in kilobytes, for pages of 4 kilobytes.
pub fn rss_in_kilobytes(rss_pages: usize) -> (r: usize)
    requires
        rss_pages * 4 <= usize::MAX,
    ensures
        r == rss_pages * 4,
{
    rss_pages * 4
}

/// The resident set size in megabytes (rounded down), for pages of 4 kilobytes.
pub fn rss_in_megabytes(rss_pages: usize) -> (r: usize)
    requires
        rss_pages * 4 <= usize::MAX,
    ensures
        r == rss_pages * 4 / 1024,
{
    rss_pages * 4 / 1024
}

/// The resident set size in gigabytes (rounded down), for pages of 4 kilobytes.
pub fn rss_in_gigabytes(rss_pages: usize) -> (r: usize)
    requires
        rss_pages * 4 <= usize::MAX,
    ensures
        r == rss_pages * 4 / 1024 / 1024,
{
    rss_pages * 4 / 1024 / 1024
}

/// An ASCII decimal digit.
pub open spec fn is_digit(c: char) -> bool {
    '0' <= c && c <= '9'
}

/// The position of the first character at or after `i` that is not a digit.
pub open spec fn digits_end(s: Seq<char>, i: int) -> int
    decreases s.len() - i,
{
    if 0 <= i < s.len() && is_digit(s[i]) {
        digits_end(s, i + 1)
    } else {
        i
    }
}

/// The number written by the digits `s`.
pub open spec fn decimal(s: Seq<char>) -> nat
    decreases s.len(),
{
    if s.len() == 0 {
        0
    } else {
        decimal(s.drop_last()) * 10 + ((s.last() as nat) - ('0' as nat)) as nat
    }
}

/// The number written in `s` from position `i` on, of at least one digit and at
/// most `usize::MAX`, with the position just after its last digit.
pub open spec fn number_at(s: Seq<char>, i: int) -> Option<(nat, int)> {
    let e = digits_end(s, i);
    let v = decimal(s.subrange(i, e));
    if 0 <= i && e > i && v <= usize::MAX {
        Some((v, e))
    } else {
        None
    }
}

/// The `n` numbers written in `s` from position `i` on, separated by single
/// spaces, with the position just after the last digit; `None` where `s` does not
/// hold them.
pub open spec fn numbers_at(s: Seq<char>, i: int, n: nat) -> Option<(Seq<nat>, int)>
    decreases n,
{
    if n == 0 {
        None
    } else {
        match number_at(s, i) {
            None => None,
            Some((v, e)) => if n == 1 {
                Some((seq![v], e))
            } else if e < s.len() && s[e] == ' ' {
                match numbers_at(s, e + 1, (n - 1) as nat) {
                    Some((vs, end)) => Some((seq![v] + vs, end)),
                    None => None,
                }
            } else {
                None
            },
        }
    }
}

/// The numbers `numbers_at` gives for `k + 1` numbers: those for `k` numbers and
/// the one after the space that follows them.
proof fn lemma_numbers_snoc(s: Seq<char>, i: int, k: nat)
    requires
        k >= 1,
    ensures
        numbers_at(s, i, k + 1) == match numbers_at(s, i, k) {
            None => None,
            Some((vs, end)) => if end < s.len() && s[end] == ' ' {
                match number_at(s, end + 1) {
                    Some((w, e)) => Some((vs.push(w), e)),
                    None => None,
                }
            } else {
                None
            },
        },
    decreases k,
{
    if k == 1 {
        match number_at(s, i) {
            Some((v, e)) => {
                if e < s.len() && s[e] == ' ' {
                    match number_at(s, e + 1) {
                        Some((w, e2)) => {
                            assert(seq![v] + seq![w] =~= seq![v].push(w));
                        },
                        None => {},
                    }
                }
            },
            None => {},
        }
    } else {
        match number_at(s, i) {
            Some((v, e)) => {
                if e < s.len() && s[e] == ' ' {
                    lemma_numbers_snoc(s, e + 1, (k - 1) as nat);
                    match numbers_at(s, e + 1, (k - 1) as nat) {
                        Some((vs, end)) => {
                            if end < s.len() && s[end] == ' ' {
                                match number_at(s, end + 1) {
                                    Some((w, e2)) => {
                                        assert((seq![v] + vs).push(w) =~= seq![v] + vs.push(w));
                                    },
                                    None => {},
                                }
                            }
                        },
                        None => {},
                    }
                }
            },
            None => {},
        }
    }
}

/// Once the numbers cannot be read, more of them cannot be read either.
proof fn lemma_numbers_none(s: Seq<char>, i: int, k: nat, m: nat)
    requires
        1 <= k <= m,
        numbers_at(s, i, k) is None,
    ensures
        numbers_at(s, i, m) is None,
    decreases m - k,
{
    if k < m {
        lemma_numbers_snoc(s, i, k);
        lemma_numbers_none(s, i, k + 1, m);
    }
}

/// The statm record of the seven numbers of a statm file: size, resident, shared,
/// text, lib, data, dt (lib and dt are unused).
pub open spec fn statm_of(vs: Seq<nat>) -> Statm {
    Statm {
        size: vs[0] as usize,
        resident: vs[1] as usize,
        share: vs[2] as usize,
        text: vs[3] as usize,
        data: vs[5] as usize,
    }
}

proof fn lemma_digits_end_bounds(s: Seq<char>, i: int)
    requires
        0 <= i <= s.len(),
    ensures
        i <= digits_end(s, i) <= s.len(),
        forall|k: int| i <= k < digits_end(s, i) ==> is_digit(#[trigger] s[k]),
        digits_end(s, i) < s.len() ==> !is_digit(s[digits_end(s, i)]),
    decreases s.len() - i,
{
    if i < s.len() && is_digit(s[i]) {
        lemma_digits_end_bounds(s, i + 1);
    }
}

/// The number written at position `i` of `s`, with the position after its last
/// digit; `None` where no digit stands there or the number exceeds `usize::MAX`.
fn parse_usize(s: &str, n: usize, i: usize) -> (r: Option<(usize, usize)>)
    requires
        n == s@.len(),
        i <= n,
    ensures
        match r {
            Some((v, e)) => number_at(s@, i as int) == Some((v as nat, e as int)) && e <= n,
            None => number_at(s@, i as int) is None,
        },
{
    proof {
        lemma_digits_end_bounds(s@, i as int);
    }
    let ghost end = digits_end(s@, i as int);
    let mut j: usize = i;
    let mut v: usize = 0;
    let mut overflow = false;
    while j < n && is_digit_char(s.get_char(j))
        invariant
            i <= j <= end,
            end == digits_end(s@, i as int),
            end <= n,
            n == s@.len(),
            forall|k: int| i <= k < end ==> is_digit(#[trigger] s@[k]),
            end < n ==> !is_digit(s@[end]),
            !overflow ==> v == decimal(s@.subrange(i as int, j as int)),
            overflow ==> decimal(s@.subrange(i as int, j as int)) > usize::MAX,
        decreases n - j,
    {
        let c = s.get_char(j);
        let d = (c as u32 - '0' as u32) as usize;
        proof {
            let t = s@.subrange(i as int, j + 1);
            assert(t.drop_last() =~= s@.subrange(i as int, j as int));
            assert(t.last() == c);
        }
        if !overflow {
            match v.checked_mul(10) {
                Some(w) => match w.checked_add(d) {
                    Some(x) => {
                        v = x;
                    },
                    None => {
                        overflow = true;
                    },
                },
                None => {
                    overflow = true;
                    proof {
                        assert(decimal(s@.subrange(i as int, j + 1)) >= decimal(s@.subrange(i as int, j as int)) * 10);
                    }
                },
            }
        } else {
            proof {
                assert(decimal(s@.subrange(i as int, j + 1)) >= decimal(s@.subrange(i as int, j as int)) * 10) by (nonlinear_arith)
                    requires
                        decimal(s@.subrange(i as int, j + 1)) == decimal(s@.subrange(i as int, j as int)) * 10 + ((c as nat) - ('0' as nat)) as nat,
                ;
            }
        }
        j = j + 1;
    }
    if j == i || overflow {
        None
    } else {
        Some((v, j))
    }
}

/// The statm record written at the start of `input`, with the number of
/// characters it takes: seven numbers separated by single spaces, of which the
/// first four and the sixth are kept.
pub fn parse_statm(input: &str) -> (r: Option<(Statm, usize)>)
    ensures
        match numbers_at(input@, 0, 7) {
            Some((vs, end)) => r == Some((statm_of(vs), end as usize)) && end <= input@.len(),
            None => r is None,
        },
        input@.len() <= usize::MAX,
{
    let n = input.unicode_len();
    let mut values: Vec<usize> = Vec::new();
    let mut pos: usize = 0;
    let mut k: usize = 0;
    while k < 7
        invariant
            k <= 7,
            n == input@.len(),
            pos <= n,
            values@.len() == k,
            k == 0 ==> pos == 0,
            k > 0 ==> numbers_at(input@, 0, k as nat) == Some((values@.map_values(|v: usize| v as nat), pos as int)),
        decreases 7 - k,
    {
        let ghost vs = values@.map_values(|v: usize| v as nat);
        proof {
            if k > 0 {
                lemma_numbers_snoc(input@, 0, k as nat);
            }
        }
        let start = if k == 0 {
            0
        } else {
            if pos < n && input.get_char(pos) == ' ' {
                pos + 1
            } else {
                proof {
                    lemma_numbers_none(input@, 0, (k + 1) as nat, 7);
                }
                return None;
            }
        };
        match parse_usize(input, n, start) {
            Some((v, e)) => {
                values.push(v);
                pos = e;
                proof {
                    assert(values@.map_values(|v: usize| v as nat) =~= vs.push(v as nat));
                }
            },
            None => {
                proof {
                    if k > 0 {
                        lemma_numbers_none(input@, 0, (k + 1) as nat, 7);
                    }
                }
                return None;
            },
        }
        k = k + 1;
    }
    proof {
        lemma_numbers_end(input@, 0, 7);
        let vs = values@.map_values(|v: usize| v as nat);
        assert(statm_of(vs) == Statm { size: values[0], resident: values[1], share: values[2], text: values[3], data: values[5] });
    }
    Some((Statm { size: values[0], resident: values[1], share: values[2], text: values[3], data: values[5] }, pos))
}

/// The position after the last character of `s` before `e` that is not white
/// space, or 0 where there is none.
pub open spec fn trim_end(s: Seq<char>, e: int) -> int
    decreases e,
{
    if e <= 0 || !is_blank(s[e - 1]) {
        e
    } else {
        trim_end(s, e - 1)
    }
}

/// The text `s` without its leading and trailing white space.
pub open spec fn trimmed(s: Seq<char>) -> Seq<char> {
    let start = skip_blanks(s, 0, s.len() as int);
    if start >= s.len() {
        Seq::empty()
    } else {
        s.subrange(start, trim_end(s, s.len() as int))
    }
}

/// A trailing stretch of white space ends after the last character that is not
/// white space.
proof fn lemma_trim_end_after(s: Seq<char>, e: int, j: int)
    requires
        0 <= j < e <= s.len(),
        !is_blank(s[j]),
    ensures
        j < trim_end(s, e) <= e,
    decreases e,
{
    if e - 1 > j && is_blank(s[e - 1]) {
        lemma_trim_end_after(s, e - 1, j);
    }
}

/// The text without its leading and trailing white space, as `str::trim` gives
/// it.
fn trim_text(s: &str) -> (r: &str)
    ensures
        r@ == trimmed(s@),
{
    let n = s.unicode_len();
    let mut start: usize = 0;
    while start < n && blank(s.get_char(start))
        invariant
            start <= n,
            n == s@.len(),
            skip_blanks(s@, 0, n as int) == skip_blanks(s@, start as int, n as int),
        decreases n - start,
    {
        start = start + 1;
    }
    if start >= n {
        let r = s.substring_char(0, 0);
        assert(r@ =~= Seq::<char>::empty());
        return r;
    }
    let mut end: usize = n;
    while end > 0 && blank(s.get_char(end - 1))
        invariant
            end <= n,
            n == s@.len(),
            trim_end(s@, n as int) == trim_end(s@, end as int),
        decreases end,
    {
        end = end - 1;
    }
    proof {
        lemma_trim_end_after(s@, n as int, start as int);
    }
    s.substring_char(start, end)
}

/// What a parse of the whole of `input` gives: the parsed value where the parse
/// took all of it, the text left over where it did not, `Unparsable` where it
/// failed.
pub fn map_result<T>(result: Option<(T, usize)>, input: &str) -> (r: Result<T, StatmError>)
    requires
        result matches Some((_, e)) ==> e <= input@.len(),
    ensures
        match result {
            None => r matches Err(StatmError::Unparsable),
            Some((v, e)) => if e == input@.len() {
                r == Ok::<T, StatmError>(v)
            } else {
                r matches Err(StatmError::Trailing(rest)) && rest@ == input@.skip(e as int)
            },
        },
{
    match result {
        None => Err(StatmError::Unparsable),
        Some((v, e)) => {
            let n = input.unicode_len();
            if e == n {
                Ok(v)
            } else {
                let rest = input.substring_char(e, n);
                proof {
                    assert(rest@ =~= input@.skip(e as int));
                }
                Err(StatmError::Trailing(String::from_str(rest)))
            }
        },
    }
}

/// The statm record written in the text of a statm file, around which white
/// space may stand.
pub fn statm_from_contents(contents: &str) -> (r: Result<Statm, StatmError>)
    ensures
        match numbers_at(trimmed(contents@), 0, 7) {
            None => r matches Err(StatmError::Unparsable),
            Some((vs, end)) => if end == trimmed(contents@).len() {
                r == Ok::<Statm, StatmError>(statm_of(vs))
            } else {
                r matches Err(StatmError::Trailing(rest)) && rest@ == trimmed(contents@).skip(end)
            },
        },
{
    let text = trim_text(contents);
    let parsed = parse_statm(text);
    proof {
        if numbers_at(text@, 0, 7) is Some {
            lemma_numbers_end(text@, 0, 7);
        }
    }
    map_result(parsed, text)
}

/// The numbers end within the text.
proof fn lemma_numbers_end(s: Seq<char>, i: int, n: nat)
    requires
        numbers_at(s, i, n) is Some,
    ensures
        (numbers_at(s, i, n)->0).1 <= s.len(),
        (numbers_at(s, i, n)->0).1 > i,
    decreases n,
{
    let e = digits_end(s, i);
    assert(i < s.len());
    lemma_digits_end_bounds(s, i);
    if n > 1 {
        lemma_numbers_end(s, e + 1, (n - 1) as nat);
    }
}

fn is_digit_char(c: char) -> (r: bool)
    ensures
        r == is_digit(c),
{
    '0' <= c && c <= '9'
}

} // verus!
