//! Reading the two kinds of input lines: the grid-size line `x:y` and the
//! live-cell lines `x,y`, each two decimal numbers around a separator.

use vstd::arithmetic::div_mod::lemma_fundamental_div_mod;
use vstd::prelude::*;

verus! {

/// Why a line of the input could not be read.
#[derive(Clone, Copy, PartialEq, Eq, Structural, Debug)]
pub enum ParseError {
    /// The line has no separator between its two components.
    MissingSeparator,
    /// A component is empty, holds a character that is not a decimal digit,
    /// or names a value too large for `usize`.
    InvalidNumber,
}

/// Whether `c` is a decimal digit.
pub open spec fn is_digit(c: char) -> bool {
    48 <= c as u32 <= 57
}

/// The value of the decimal digit `c`.
pub open spec fn digit_val(c: char) -> int {
    c as u32 - 48
}

/// Whether every character of `s` is a decimal digit.
pub open spec fn all_digits(s: Seq<char>) -> bool {
    forall|i: int| 0 <= i < s.len() ==> is_digit(#[trigger] s[i])
}

/// The number that the digit string `s` names in decimal.
pub open spec fn dec_val(s: Seq<char>) -> int
    decreases s.len(),
{
    if s.len() == 0 {
        0
    } else {
        dec_val(s.drop_last()) * 10 + digit_val(s.last())
    }
}

/// A well-formed component: a nonempty digit string whose value fits in
/// `usize`. Digits only, deliberately: the numbers of an input line are
/// unsigned, so a sign prefix (`+` as much as `-`) is rejected rather than
/// tolerated.
pub open spec fn valid_component(s: Seq<char>) -> bool {
    s.len() > 0 && all_digits(s) && dec_val(s) <= usize::MAX
}

/// What parsing a two-component line with separator `sep` returns: with no
/// separator anywhere, the separator is reported missing; otherwise the line
/// splits at the first separator, and parsing succeeds exactly when both
/// components are nonempty digit strings whose values fit in `usize`, in
/// which case it yields their two values.
pub open spec fn pair_contract(
    s: Seq<char>,
    sep: char,
    r: Result<(usize, usize), ParseError>,
) -> bool {
    &&& ((forall|i: int| 0 <= i < s.len() ==> s[i] != sep) ==> r == Err::<
        (usize, usize),
        ParseError,
    >(ParseError::MissingSeparator))
    &&& forall|i: int|
        (0 <= i < s.len() && s[i] == sep && (forall|j: int| 0 <= j < i ==> s[j] != sep)) ==> {
            let xp = s.subrange(0, i);
            let yp = s.subrange(i + 1, s.len() as int);
            &&& (r is Ok <==> (valid_component(xp) && valid_component(yp)))
            &&& (r is Ok ==> r->Ok_0.0 == dec_val(xp) && r->Ok_0.1 == dec_val(yp))
            &&& (r is Err ==> r == Err::<(usize, usize), ParseError>(ParseError::InvalidNumber))
        }
}

proof fn lemma_dec_val_nonneg(s: Seq<char>)
    requires
        all_digits(s),
    ensures
        dec_val(s) >= 0,
    decreases s.len(),
{
    if s.len() > 0 {
        assert(all_digits(s.drop_last()));
        lemma_dec_val_nonneg(s.drop_last());
    }
}

/// Appending digits to a digit string never shrinks its value, so every
/// prefix of a digit string names a value no larger than the whole.
proof fn lemma_dec_val_prefix_le(s: Seq<char>, i: int)
    requires
        all_digits(s),
        0 <= i <= s.len(),
    ensures
        dec_val(s.take(i)) <= dec_val(s),
    decreases s.len() - i,
{
    if i < s.len() {
        lemma_dec_val_prefix_le(s, i + 1);
        assert(s.take(i + 1).drop_last() =~= s.take(i));
        assert(all_digits(s.take(i)));
        lemma_dec_val_nonneg(s.take(i));
        assert(dec_val(s.take(i + 1)) == dec_val(s.take(i)) * 10 + digit_val(s.take(i + 1).last()));
    } else {
        assert(s.take(i) =~= s);
    }
}

/// Reads the decimal number written between character positions `start`
/// (inclusive) and `end` (exclusive) of `s`.
fn parse_component(s: &str, start: usize, end: usize) -> (r: Result<usize, ParseError>)
    requires
        start <= end <= s@.len(),
    ensures
        r is Ok <==> valid_component(s@.subrange(start as int, end as int)),
        r is Ok ==> r->Ok_0 == dec_val(s@.subrange(start as int, end as int)),
        r is Err ==> r == Err::<usize, ParseError>(ParseError::InvalidNumber),
{
    let ghost p = s@.subrange(start as int, end as int);
    if start == end {
        return Err(ParseError::InvalidNumber);
    }

    let mut i: usize = start;
    let mut val: usize = 0;
    while i < end
        invariant
            start <= i <= end,
            end <= s@.len(),
            p == s@.subrange(start as int, end as int),
            all_digits(p.take(i - start)),
            val == dec_val(p.take(i - start)),
        decreases end - i,
    {
        let c = s.get_char(i);
        let u = c as u32;
        proof {
            assert(p[i - start] == s@[i as int]);
        }
        if u < 48 || u > 57 {
            return Err(ParseError::InvalidNumber);
        }
        let d = (u - 48) as usize;

        proof {
            assert(p.take(i - start + 1).drop_last() =~= p.take(i - start));
            assert(dec_val(p.take(i - start + 1)) == val * 10 + d);
            lemma_fundamental_div_mod(usize::MAX - d, 10);
        }
        if val > (usize::MAX - d) / 10 {
            proof {
                assert(dec_val(p.take(i - start + 1)) > usize::MAX);
                if all_digits(p) {
                    lemma_dec_val_prefix_le(p, i - start + 1);
                    assert(dec_val(p) > usize::MAX);
                }
            }
            return Err(ParseError::InvalidNumber);
        }
        val = val * 10 + d;
        i += 1;
    }
    proof {
        assert(p.take(end - start) =~= p);
    }
    Ok(val)
}

/// Splits `s` at the first `sep` and reads both parts as decimal numbers,
/// as [`pair_contract`] states.
fn parse_pair(s: &str, sep: char) -> (r: Result<(usize, usize), ParseError>)
    ensures
        pair_contract(s@, sep, r),
{
    let len = s.unicode_len();
    let mut i: usize = 0;
    while i < len
        invariant_except_break
            i <= len,
            len == s@.len(),
            forall|j: int| 0 <= j < i ==> s@[j] != sep,
        ensures
            len == s@.len(),
            (i == len && (forall|j: int| 0 <= j < len ==> s@[j] != sep)) || (i < len && s@[i as int]
                == sep && (forall|j: int| 0 <= j < i ==> s@[j] != sep)),
        decreases len - i,
    {
        if s.get_char(i) == sep {
            break ;
        }
        i += 1;
    }

    if i == len {
        return Err(ParseError::MissingSeparator);
    }

    let x = match parse_component(s, 0, i) {
        Ok(v) => v,
        Err(_) => {
            return Err(ParseError::InvalidNumber);
        },
    };
    let y = match parse_component(s, i + 1, len) {
        Ok(v) => v,
        Err(_) => {
            return Err(ParseError::InvalidNumber);
        },
    };
    Ok((x, y))
}

/// Reads the grid-size line `<x_size>:<y_size>`, as [`pair_contract`]
/// states with separator `':'`.
pub fn parse_size_line(line: &str) -> (r: Result<(usize, usize), ParseError>)
    ensures
        pair_contract(line@, ':', r),
{
    parse_pair(line, ':')
}

/// Reads a live-cell line `<x>,<y>`, as [`pair_contract`] states with
/// separator `','`.
pub fn parse_coord_line(line: &str) -> (r: Result<(usize, usize), ParseError>)
    ensures
        pair_contract(line@, ',', r),
{
    parse_pair(line, ',')
}

} // verus!
