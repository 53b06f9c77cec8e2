//! Request validation: dimension-text matching and optional styling
//! parameters.
//!
//! Dimension text is searched for the leftmost occurrence of the pattern
//! "a run of digits starting with 1-9, at least two long, then `x`, then
//! another such run" (so each dimension is at least 10 and has no leading
//! zero).  No occurrence fails the request with `InvalidDimensionFormat`;
//! a dimension above 3000 fails it with `DimensionTooLarge`.  Optional
//! color parameters are matched against the whole-string 3-or-6-hex-digit
//! pattern and silently dropped when malformed.

use vstd::prelude::*;

use crate::color::Color;
use crate::color::ColorError;
use crate::color::spec_from_hex;

verus! {

/// Everything that can make a request fail, request-scoped (dimension
/// validation) and server-scoped (store and renderer failures) alike.
#[derive(Debug, PartialEq, Eq, Structural, Clone, Copy)]
pub enum RequestError {
    /// The dimension text holds no well-formed `<width>x<height>`.
    InvalidDimensionFormat,
    /// A dimension exceeds 3000.
    DimensionTooLarge,
    /// A color string has a length other than 3 or 6.
    InvalidColorLength,
    /// A color string holds a character that is not a hex digit.
    InvalidColorHex,
    /// The key-value store failed while reading.
    StoreReadError,
    /// The key-value store failed while writing.
    StoreWriteError,
    /// The renderer failed to produce an image.
    RenderError,
}

impl RequestError {
    /// The request-scoped color-parse failure corresponding to a
    /// [`ColorError`].
    pub fn from_color_error(e: ColorError) -> (r: RequestError)
        ensures
            e == ColorError::InvalidLength ==> r == RequestError::InvalidColorLength,
            e == ColorError::InvalidHex ==> r == RequestError::InvalidColorHex,
    {
        match e {
            ColorError::InvalidLength => RequestError::InvalidColorLength,
            ColorError::InvalidHex => RequestError::InvalidColorHex,
        }
    }
}

/// Optional styling parameters of a request: background color, border
/// color, border thickness.  Absence of each field is meaningful and is
/// preserved through fingerprinting.
#[derive(Debug, PartialEq, Eq, Structural, Clone, Copy)]
pub struct ImageConfig {
    pub bg: Option<Color>,
    pub br: Option<Color>,
    pub br_s: Option<u8>,
}

/// A validated request: the raw dimension text exactly as received (it is
/// also the rendered label) and the styling parameters.
#[derive(Debug)]
pub struct ImageMeta {
    pub config: ImageConfig,
    pub raw_dimensions: String,
}

/// Whether `c` is a decimal digit.
pub open spec fn is_ascii_digit(c: char) -> bool {
    48 <= c as int && c as int <= 57
}

/// Whether `c` is a decimal digit other than zero.
pub open spec fn is_nonzero_digit(c: char) -> bool {
    49 <= c as int && c as int <= 57
}

/// The end of the run of digits beginning at `i`: the first position at or
/// after `i` holding no digit.
pub open spec fn run_end(s: Seq<char>, i: int) -> int
    recommends
        0 <= i <= s.len(),
    decreases s.len() - i,
{
    if i < 0 || i >= s.len() {
        i
    } else if is_ascii_digit(s[i]) {
        run_end(s, i + 1)
    } else {
        i
    }
}

/// Whether an occurrence of the dimension pattern starts at `i`: a digit
/// run of length at least 2 starting with 1-9, an `x`, and a second such
/// run.
pub open spec fn match_at(s: Seq<char>, i: int) -> bool {
    let j = run_end(s, i);
    let k = run_end(s, j + 1);
    &&& 0 <= i < s.len()
    &&& is_nonzero_digit(s[i])
    &&& j - i >= 2
    &&& j < s.len()
    &&& s[j] == 'x'
    &&& j + 1 < s.len()
    &&& is_nonzero_digit(s[j + 1])
    &&& k - (j + 1) >= 2
}

/// The first position at or after `i` where the dimension pattern occurs,
/// or `s.len()` when it occurs nowhere at or after `i`.
pub open spec fn first_match_from(s: Seq<char>, i: int) -> int
    recommends
        0 <= i <= s.len(),
    decreases s.len() - i,
{
    if i >= s.len() {
        i
    } else if match_at(s, i) {
        i
    } else {
        first_match_from(s, i + 1)
    }
}

/// The decimal value of a digit sequence.
pub open spec fn digits_val(s: Seq<char>) -> int
    decreases s.len(),
{
    if s.len() == 0 {
        0
    } else {
        digits_val(s.drop_last()) * 10 + (s.last() as int - 48)
    }
}

/// 10 to the `n`.
pub open spec fn pow10(n: nat) -> int
    decreases n,
{
    if n == 0 {
        1
    } else {
        10 * pow10((n - 1) as nat)
    }
}

/// What dimension parsing returns: the width and height read from the
/// leftmost occurrence of the dimension pattern, `InvalidDimensionFormat`
/// when there is none, and `DimensionTooLarge` when either value exceeds
/// 3000.
pub open spec fn spec_parse_dimensions(s: Seq<char>) -> Result<(u32, u32), RequestError> {
    let i = first_match_from(s, 0);
    if i >= s.len() {
        Err(RequestError::InvalidDimensionFormat)
    } else {
        let j = run_end(s, i);
        let k = run_end(s, j + 1);
        let w = digits_val(s.subrange(i, j));
        let h = digits_val(s.subrange(j + 1, k));
        if w > 3000 || h > 3000 {
            Err(RequestError::DimensionTooLarge)
        } else {
            Ok((w as u32, h as u32))
        }
    }
}

proof fn lemma_run_end(s: Seq<char>, i: int)
    requires
        0 <= i <= s.len(),
    ensures
        i <= run_end(s, i) <= s.len(),
        forall|t: int| i <= t < run_end(s, i) ==> is_ascii_digit(s[t]),
        run_end(s, i) == s.len() || !is_ascii_digit(s[run_end(s, i)]),
    decreases s.len() - i,
{
    if i < s.len() && is_ascii_digit(s[i]) {
        lemma_run_end(s, i + 1);
    }
}

proof fn lemma_digits_val_bounds(s: Seq<char>)
    requires
        forall|t: int| 0 <= t < s.len() ==> is_ascii_digit(s[t]),
    ensures
        0 <= digits_val(s) < pow10(s.len()),
        s.len() >= 1 && is_nonzero_digit(s[0]) ==> digits_val(s) >= pow10((s.len() - 1) as nat),
    decreases s.len(),
{
    if s.len() > 0 {
        lemma_digits_val_bounds(s.drop_last());
    }
}

proof fn lemma_pow10_at_least(n: nat)
    requires
        n >= 4,
    ensures
        pow10(n) >= 10000,
    decreases n,
{
    if n == 4 {
        reveal_with_fuel(pow10, 5);
        assert(pow10(4) == 10000);
    } else {
        lemma_pow10_at_least((n - 1) as nat);
    }
}

fn is_digit_exec(c: char) -> (b: bool)
    ensures
        b == is_ascii_digit(c),
{
    let u = c as u32;
    48 <= u && u <= 57
}

fn is_nonzero_exec(c: char) -> (b: bool)
    ensures
        b == is_nonzero_digit(c),
{
    let u = c as u32;
    49 <= u && u <= 57
}

fn digit_run_end(s: &str, start: usize, n: usize) -> (j: usize)
    requires
        n == s@.len(),
        start <= n,
    ensures
        j == run_end(s@, start as int),
        start <= j <= n,
{
    let mut j = start;
    while j < n && is_digit_exec(s.get_char(j))
        invariant
            start <= j <= n,
            n == s@.len(),
            run_end(s@, start as int) == run_end(s@, j as int),
        decreases n - j,
    {
        j = j + 1;
    }
    j
}

fn check_match_at(s: &str, i: usize, n: usize) -> (b: bool)
    requires
        n == s@.len(),
        i < n,
    ensures
        b == match_at(s@, i as int),
{
    if !is_nonzero_exec(s.get_char(i)) {
        return false;
    }
    let j = digit_run_end(s, i, n);
    if j - i < 2 || j >= n {
        return false;
    }
    if s.get_char(j) != 'x' {
        return false;
    }
    if j + 1 >= n {
        return false;
    }
    if !is_nonzero_exec(s.get_char(j + 1)) {
        return false;
    }
    let k = digit_run_end(s, j + 1, n);
    k - (j + 1) >= 2
}

fn digits_to_value(s: &str, i: usize, j: usize) -> (r: Option<u32>)
    requires
        i < j <= s@.len(),
        j - i >= 2,
        forall|t: int| i <= t < j ==> is_ascii_digit(s@[t]),
        is_nonzero_digit(s@[i as int]),
    ensures
        r matches Some(v) ==> v == digits_val(s@.subrange(i as int, j as int)) && v <= 3000,
        r is None ==> digits_val(s@.subrange(i as int, j as int)) > 3000,
{
    if j - i > 4 {
        proof {
            let sub = s@.subrange(i as int, j as int);
            lemma_digits_val_bounds(sub);
            lemma_pow10_at_least((sub.len() - 1) as nat);
        }
        return None;
    }
    let ghost sub = s@.subrange(i as int, j as int);
    let mut acc: u32 = 0;
    let mut t: usize = i;
    while t < j
        invariant
            i <= t <= j <= s@.len(),
            j - i <= 4,
            forall|q: int| i <= q < j ==> is_ascii_digit(s@[q]),
            acc == digits_val(s@.subrange(i as int, t as int)),
            acc < pow10((t - i) as nat),
        decreases j - t,
    {
        let c = s.get_char(t);
        let d = (c as u32) - 48;
        proof {
            let pre = s@.subrange(i as int, t as int);
            let post = s@.subrange(i as int, t + 1 as int);
            assert(post.drop_last() =~= pre);
            assert(post.last() == s@[t as int]);
            assert(pow10((t - i + 1) as nat) == 10 * pow10((t - i) as nat));
            lemma_pow10_monotone((t - i) as nat, 3);
            reveal_with_fuel(pow10, 4);
            assert(pow10(3) == 1000);
        }
        acc = acc * 10 + d;
        t = t + 1;
    }
    proof {
        lemma_digits_val_bounds(sub);
    }
    if acc > 3000 {
        None
    } else {
        Some(acc)
    }
}

proof fn lemma_pow10_monotone(a: nat, b: nat)
    requires
        a <= b,
    ensures
        pow10(a) <= pow10(b),
        pow10(a) >= 1,
    decreases b,
{
    if b > 0 {
        if a == b {
            lemma_pow10_monotone((a - 1) as nat, (b - 1) as nat);
        } else {
            lemma_pow10_monotone(a, (b - 1) as nat);
        }
    }
}

/// Parses and validates dimension text: finds the leftmost occurrence of
/// the dimension pattern, reads width and height from it, and enforces the
/// 3000 bound on both.
pub fn parse_dimensions(text: &str) -> (r: Result<(u32, u32), RequestError>)
    ensures
        r == spec_parse_dimensions(text@),
        r matches Ok(d) ==> 10 <= d.0 <= 3000 && 10 <= d.1 <= 3000,
{
    let n = text.unicode_len();
    let mut i: usize = 0;
    while i < n && !check_match_at(text, i, n)
        invariant
            0 <= i <= n,
            n == text@.len(),
            first_match_from(text@, 0) == first_match_from(text@, i as int),
        decreases n - i,
    {
        i = i + 1;
    }
    if i >= n {
        return Err(RequestError::InvalidDimensionFormat);
    }
    proof {
        assert(first_match_from(text@, 0) == i as int);
    }
    let j = digit_run_end(text, i, n);
    proof {
        lemma_run_end(text@, i as int);
        lemma_run_end(text@, j + 1 as int);
    }
    let k = digit_run_end(text, j + 1, n);
    let w = digits_to_value(text, i, j);
    let h = digits_to_value(text, j + 1, k);
    match (w, h) {
        (Some(wv), Some(hv)) => {
            proof {
                let sub = text@.subrange(i as int, j as int);
                lemma_digits_val_bounds(sub);
                reveal_with_fuel(pow10, 2);
                assert(pow10(1) == 10);
                lemma_pow10_monotone(1, (sub.len() - 1) as nat);
                let sub2 = text@.subrange(j + 1 as int, k as int);
                lemma_digits_val_bounds(sub2);
                lemma_pow10_monotone(1, (sub2.len() - 1) as nat);
            }
            Ok((wv, hv))
        },
        _ => Err(RequestError::DimensionTooLarge),
    }
}

/// What a raw optional color parameter normalizes to: a parsed color when
/// the whole string is 3 or 6 hex digits, and absence otherwise (malformed
/// color input is silently dropped, never a request error).
pub open spec fn spec_color_param(s: Seq<char>) -> Option<Color> {
    match spec_from_hex(s) {
        Ok(c) => Some(c),
        Err(_) => None,
    }
}

/// Normalizes one raw color parameter: a string of exactly 3 or 6 hex
/// digits yields its color, anything else yields absence.
pub fn color(value: &str) -> (r: Option<Color>)
    ensures
        r == spec_color_param(value@),
{
    match Color::from_hex(value) {
        Ok(c) => Some(c),
        Err(_) => None,
    }
}

/// Assembles the styling parameters of a request from the raw query
/// values: each color is normalized by [`color`], the border thickness is
/// taken as supplied.
pub fn build_config(bg: Option<&str>, br: Option<&str>, br_s: Option<u8>) -> (c: ImageConfig)
    ensures
        bg matches Some(s) ==> c.bg == spec_color_param(s@),
        bg is None ==> c.bg is None,
        br matches Some(s) ==> c.br == spec_color_param(s@),
        br is None ==> c.br is None,
        c.br_s == br_s,
{
    ImageConfig {
        bg: match bg {
            Some(s) => color(s),
            None => None,
        },
        br: match br {
            Some(s) => color(s),
            None => None,
        },
        br_s,
    }
}

/// Validates a request: parses the dimension text and, on success, pairs
/// it with the styling parameters.  The raw text is kept verbatim; it is
/// also the label the composer will render.
pub fn validate_request(dimensions: String, config: ImageConfig) -> (r: Result<
    (ImageMeta, u32, u32),
    RequestError,
>)
    ensures
        match spec_parse_dimensions(dimensions@) {
            Ok(d) => r matches Ok(t) && t.0.raw_dimensions@ == dimensions@ && t.0.config == config
                && t.1 == d.0 && t.2 == d.1 && 10 <= t.1 <= 3000 && 10 <= t.2 <= 3000,
            Err(e) => r == Err::<(ImageMeta, u32, u32), RequestError>(e),
        },
{
    match parse_dimensions(dimensions.as_str()) {
        Ok((w, h)) => Ok((ImageMeta { config, raw_dimensions: dimensions }, w, h)),
        Err(e) => Err(e),
    }
}

} // verus!
