//! The text format of osu! beatmap files.
use vstd::prelude::*;
use crate::osu::model::{
    empty_metadata, BeatmapView, MetadataView, OsuBeatmap, OsuHitObject, OsuMetadata, OsuMode,
    OsuTimingPoint, TimingPointView,
};
use crate::text::{
    chars_eq_str, chars_range, chars_to_ascii_lower, decimal, decimal_int, find_char,
    find_char_index, lemma_find_char, lines_of, lower_all, push_chars, push_decimal,
    push_decimal_i64, raw_lines, split_on, split_on_char, str_chars, string_from_chars,
    trim, trim_chars,
};

verus! {

// ---------------------------------------------------------------------------
// Decimal integers, as `str::parse` reads them for the primitive integer types.
// ---------------------------------------------------------------------------

/// Why a decimal integer could not be read.
#[derive(Debug, Clone, Copy, PartialEq, Eq, Structural)]
pub enum IntErrorKind {
    Empty,
    InvalidDigit,
    PosOverflow,
    NegOverflow,
}

pub open spec fn is_digit(c: char) -> bool {
    '0' <= c <= '9'
}

pub open spec fn digit_value(c: char) -> int {
    c as int - '0' as int
}

/// Reads `digits` left to right onto `acc`; the first character that is no digit, or
/// the first digit that takes the value out of `[lo, hi]`, ends the scan with an error.
pub open spec fn scan_digits(digits: Seq<char>, acc: int, negative: bool, lo: int, hi: int) -> Result<
    int,
    IntErrorKind,
>
    decreases digits.len(),
{
    if digits.len() == 0 {
        Ok(acc)
    } else if !is_digit(digits[0]) {
        Err(IntErrorKind::InvalidDigit)
    } else {
        let next = if negative {
            acc * 10 - digit_value(digits[0])
        } else {
            acc * 10 + digit_value(digits[0])
        };
        if next > hi {
            Err(IntErrorKind::PosOverflow)
        } else if next < lo {
            Err(IntErrorKind::NegOverflow)
        } else {
            scan_digits(digits.drop_first(), next, negative, lo, hi)
        }
    }
}

/// A decimal integer of the type whose range is `[lo, hi]`: an optional `+`, or a `-`
/// where the type is signed, then decimal digits.
pub open spec fn parse_int_spec(s: Seq<char>, lo: int, hi: int) -> Result<int, IntErrorKind> {
    if s.len() == 0 {
        Err(IntErrorKind::Empty)
    } else if s.len() == 1 && (s[0] == '+' || s[0] == '-') {
        Err(IntErrorKind::InvalidDigit)
    } else if s[0] == '+' {
        scan_digits(s.drop_first(), 0, false, lo, hi)
    } else if s[0] == '-' && lo < 0 {
        scan_digits(s.drop_first(), 0, true, lo, hi)
    } else {
        scan_digits(s, 0, false, lo, hi)
    }
}

pub open spec fn int_error_message(k: IntErrorKind) -> Seq<char> {
    match k {
        IntErrorKind::Empty => "cannot parse integer from empty string"@,
        IntErrorKind::InvalidDigit => "invalid digit found in string"@,
        IntErrorKind::PosOverflow => "number too large to fit in target type"@,
        IntErrorKind::NegOverflow => "number too small to fit in target type"@,
    }
}

/// The message a failed integer read reports.
pub fn int_error_text(k: IntErrorKind) -> (r: &'static str)
    ensures
        r@ == int_error_message(k),
{
    match k {
        IntErrorKind::Empty => "cannot parse integer from empty string",
        IntErrorKind::InvalidDigit => "invalid digit found in string",
        IntErrorKind::PosOverflow => "number too large to fit in target type",
        IntErrorKind::NegOverflow => "number too small to fit in target type",
    }
}

pub open spec fn int_result_matches(r: Result<i64, IntErrorKind>, s: Result<int, IntErrorKind>) -> bool {
    match r {
        Ok(v) => s == Ok::<int, IntErrorKind>(v as int),
        Err(e) => s == Err::<int, IntErrorKind>(e),
    }
}

proof fn lemma_scan_in_range(digits: Seq<char>, acc: int, negative: bool, lo: int, hi: int)
    requires
        lo <= acc <= hi,
    ensures
        scan_digits(digits, acc, negative, lo, hi) matches Ok(v) ==> lo <= v <= hi,
    decreases digits.len(),
{
    if digits.len() > 0 && is_digit(digits[0]) {
        let next = if negative {
            acc * 10 - digit_value(digits[0])
        } else {
            acc * 10 + digit_value(digits[0])
        };
        if lo <= next <= hi {
            lemma_scan_in_range(digits.drop_first(), next, negative, lo, hi);
        }
    }
}

fn scan_digits_exec(s: &Vec<char>, from: usize, negative: bool, lo: i64, hi: i64) -> (r: Result<
    i64,
    IntErrorKind,
>)
    requires
        from <= s@.len(),
        -0x1_0000_0000 <= lo <= 0 <= hi <= 0x1_0000_0000,
    ensures
        int_result_matches(r, scan_digits(s@.skip(from as int), 0, negative, lo as int, hi as int)),
{
    let mut acc: i64 = 0;
    let mut i: usize = from;
    while i < s.len()
        invariant
            from <= i <= s@.len(),
            lo <= acc <= hi,
            -0x1_0000_0000 <= lo <= 0 <= hi <= 0x1_0000_0000,
            scan_digits(s@.skip(from as int), 0, negative, lo as int, hi as int) == scan_digits(
                s@.skip(i as int),
                acc as int,
                negative,
                lo as int,
                hi as int,
            ),
        decreases s.len() - i,
    {
        let c = s[i];
        assert(s@.skip(i as int)[0] == c);
        assert(s@.skip(i as int).drop_first() =~= s@.skip(i + 1));
        if !('0' <= c && c <= '9') {
            return Err(IntErrorKind::InvalidDigit);
        }
        let d: i64 = (c as u32 - '0' as u32) as i64;
        let next: i64 = if negative {
            acc * 10 - d
        } else {
            acc * 10 + d
        };
        if next > hi {
            return Err(IntErrorKind::PosOverflow);
        }
        if next < lo {
            return Err(IntErrorKind::NegOverflow);
        }
        acc = next;
        i = i + 1;
    }
    assert(s@.skip(i as int).len() == 0);
    Ok(acc)
}

/// Reads a decimal integer of the type whose range is `[lo, hi]`.
pub fn parse_int(s: &Vec<char>, lo: i64, hi: i64) -> (r: Result<i64, IntErrorKind>)
    requires
        -0x1_0000_0000 <= lo <= 0 <= hi <= 0x1_0000_0000,
    ensures
        int_result_matches(r, parse_int_spec(s@, lo as int, hi as int)),
        r matches Ok(v) ==> lo <= v <= hi,
{
    if s.len() == 0 {
        return Err(IntErrorKind::Empty);
    }
    if s.len() == 1 && (s[0] == '+' || s[0] == '-') {
        return Err(IntErrorKind::InvalidDigit);
    }
    let r = if s[0] == '+' {
        assert(s@.skip(1) =~= s@.drop_first());
        scan_digits_exec(s, 1, false, lo, hi)
    } else if s[0] == '-' && lo < 0 {
        assert(s@.skip(1) =~= s@.drop_first());
        scan_digits_exec(s, 1, true, lo, hi)
    } else {
        assert(s@.skip(0) =~= s@);
        scan_digits_exec(s, 0, false, lo, hi)
    };
    proof {
        lemma_scan_in_range(s@.drop_first(), 0, false, lo as int, hi as int);
        lemma_scan_in_range(s@.drop_first(), 0, true, lo as int, hi as int);
        lemma_scan_in_range(s@, 0, false, lo as int, hi as int);
    }
    r
}

// ---------------------------------------------------------------------------
// Float literals, as `str::parse::<f64>` accepts them.
// ---------------------------------------------------------------------------

pub open spec fn all_digits(s: Seq<char>) -> bool {
    forall|i: int| 0 <= i < s.len() ==> is_digit(#[trigger] s[i])
}

pub open spec fn is_exp_mark(c: char) -> bool {
    c == 'e' || c == 'E'
}

/// Index of the first `e` or `E`, or -1.
pub open spec fn find_exp(s: Seq<char>) -> int
    decreases s.len(),
{
    if s.len() == 0 {
        -1
    } else if is_exp_mark(s[0]) {
        0
    } else {
        let r = find_exp(s.drop_first());
        if r < 0 {
            -1
        } else {
            r + 1
        }
    }
}

/// Digits with at most one decimal point, and at least one digit.
pub open spec fn is_mantissa(m: Seq<char>) -> bool {
    let d = find_char(m, '.');
    if d < 0 {
        m.len() > 0 && all_digits(m)
    } else {
        all_digits(m.take(d)) && all_digits(m.skip(d + 1)) && m.len() > 1
    }
}

/// An optional sign, then at least one digit.
pub open spec fn is_exponent(e: Seq<char>) -> bool {
    let ds = if e.len() > 0 && (e[0] == '+' || e[0] == '-') {
        e.drop_first()
    } else {
        e
    };
    ds.len() > 0 && all_digits(ds)
}

pub open spec fn is_decimal_float(s: Seq<char>) -> bool {
    let k = find_exp(s);
    if k < 0 {
        is_mantissa(s)
    } else {
        is_mantissa(s.take(k)) && is_exponent(s.skip(k + 1))
    }
}

pub open spec fn is_inf_or_nan(s: Seq<char>) -> bool {
    let l = lower_all(s);
    l == "inf"@ || l == "infinity"@ || l == "nan"@
}

pub open spec fn is_float_literal(s: Seq<char>) -> bool {
    let body = if s.len() > 0 && (s[0] == '+' || s[0] == '-') {
        s.drop_first()
    } else {
        s
    };
    body.len() > 0 && (is_decimal_float(body) || is_inf_or_nan(body))
}

pub open spec fn float_error_message(s: Seq<char>) -> Seq<char> {
    if s.len() == 0 {
        "cannot parse float from empty string"@
    } else {
        "invalid float literal"@
    }
}

proof fn lemma_find_exp(s: Seq<char>, k: int)
    requires
        0 <= k <= s.len(),
        forall|i: int| 0 <= i < k ==> !is_exp_mark(#[trigger] s[i]),
        k == s.len() || is_exp_mark(s[k]),
    ensures
        find_exp(s) == (if k == s.len() { -1 } else { k }),
    decreases k,
{
    if k > 0 {
        assert forall|i: int| 0 <= i < k - 1 implies !is_exp_mark(#[trigger] s.drop_first()[i]) by {
            assert(s.drop_first()[i] == s[i + 1]);
        }
        if k < s.len() {
            assert(s.drop_first()[k - 1] == s[k]);
        }
        lemma_find_exp(s.drop_first(), k - 1);
    }
}

fn digits_between(s: &Vec<char>, from: usize, to: usize) -> (r: bool)
    requires
        from <= to <= s@.len(),
    ensures
        r == all_digits(s@.subrange(from as int, to as int)),
{
    let mut i = from;
    while i < to
        invariant
            from <= i <= to <= s@.len(),
            forall|k: int| from <= k < i ==> is_digit(#[trigger] s@[k]),
        decreases to - i,
    {
        if !('0' <= s[i] && s[i] <= '9') {
            assert(!is_digit(s@.subrange(from as int, to as int)[i - from]));
            return false;
        }
        i = i + 1;
    }
    assert forall|k: int| 0 <= k < to - from implies is_digit(
        #[trigger] s@.subrange(from as int, to as int)[k],
    ) by {
        assert(s@.subrange(from as int, to as int)[k] == s@[from + k]);
    }
    true
}

fn mantissa_ok(s: &Vec<char>, from: usize, to: usize) -> (r: bool)
    requires
        from <= to <= s@.len(),
    ensures
        r == is_mantissa(s@.subrange(from as int, to as int)),
{
    let ghost m = s@.subrange(from as int, to as int);
    let mut i = from;
    while i < to && s[i] != '.'
        invariant
            from <= i <= to <= s@.len(),
            forall|k: int| from <= k < i ==> #[trigger] s@[k] != '.',
        decreases to - i,
    {
        i = i + 1;
    }
    proof {
        assert forall|k: int| 0 <= k < i - from implies #[trigger] m[k] != '.' by {
            assert(m[k] == s@[from + k]);
        }
        if i < to {
            assert(m[i - from] == s@[i as int]);
        }
        lemma_find_char(m, '.', i - from);
    }
    if i == to {
        digits_between(s, from, to) && to > from
    } else {
        let a = digits_between(s, from, i);
        let b = digits_between(s, i + 1, to);
        assert(m.take(i - from) =~= s@.subrange(from as int, i as int));
        assert(m.skip(i - from + 1) =~= s@.subrange(i + 1, to as int));
        a && b && to - from > 1
    }
}

fn exponent_ok(s: &Vec<char>, from: usize) -> (r: bool)
    requires
        from <= s@.len(),
    ensures
        r == is_exponent(s@.skip(from as int)),
{
    let ghost e = s@.skip(from as int);
    let start = if from < s.len() && (s[from] == '+' || s[from] == '-') {
        from + 1
    } else {
        from
    };
    proof {
        if from < s@.len() {
            assert(e[0] == s@[from as int]);
        }
        if start == from + 1 {
            assert(e.drop_first() =~= s@.subrange(start as int, s@.len() as int));
        } else {
            assert(e =~= s@.subrange(start as int, s@.len() as int));
        }
    }
    start < s.len() && digits_between(s, start, s.len())
}

fn ascii_lower_eq(s: &Vec<char>, from: usize, lit: &str) -> (r: bool)
    requires
        from <= s@.len(),
    ensures
        r == (lower_all(s@.skip(from as int)) == lit@),
{
    let tail = chars_range(s, from, s.len());
    assert(tail@ =~= s@.skip(from as int));
    let low = chars_to_ascii_lower(&tail);
    chars_eq_str(&low, lit)
}

/// Whether `s` is a float literal that `str::parse::<f64>` accepts.
pub fn float_literal_ok(s: &Vec<char>) -> (r: bool)
    ensures
        r == is_float_literal(s@),
{
    let from: usize = if s.len() > 0 && (s[0] == '+' || s[0] == '-') {
        1
    } else {
        0
    };
    let ghost body = s@.skip(from as int);
    proof {
        if from == 1 {
            assert(body =~= s@.drop_first());
        } else {
            assert(body =~= s@);
        }
    }
    if from >= s.len() {
        return false;
    }
    let mut k = from;
    while k < s.len() && !(s[k] == 'e' || s[k] == 'E')
        invariant
            from <= k <= s@.len(),
            forall|i: int| from <= i < k ==> !is_exp_mark(#[trigger] s@[i]),
        decreases s.len() - k,
    {
        k = k + 1;
    }
    proof {
        assert forall|i: int| 0 <= i < k - from implies !is_exp_mark(#[trigger] body[i]) by {
            assert(body[i] == s@[from + i]);
        }
        if k < s.len() {
            assert(body[k - from] == s@[k as int]);
        }
        lemma_find_exp(body, k - from);
    }
    let dec = if k == s.len() {
        assert(body =~= s@.subrange(from as int, s@.len() as int));
        mantissa_ok(s, from, s.len())
    } else {
        assert(body.take(k - from) =~= s@.subrange(from as int, k as int));
        assert(body.skip(k - from + 1) =~= s@.skip(k + 1));
        mantissa_ok(s, from, k) && exponent_ok(s, k + 1)
    };
    if dec {
        return true;
    }
    ascii_lower_eq(s, from, "inf") || ascii_lower_eq(s, from, "infinity") || ascii_lower_eq(
        s,
        from,
        "nan",
    )
}

} // verus!

verus! {

// ---------------------------------------------------------------------------
// Errors.
// ---------------------------------------------------------------------------

/// Why a beatmap could not be read.
#[derive(Debug, Clone, PartialEq, Eq)]
pub enum OsuParseError {
    /// The text breaks the format; the message says where.
    InvalidFormat(String),
    /// The file could not be read.
    Io { path: String, message: String },
    /// The beatmap is for another play mode than mania.
    UnsupportedMode { mode: i32 },
}

pub enum ParseErrorView {
    InvalidFormat(Seq<char>),
    Io(Seq<char>, Seq<char>),
    UnsupportedMode(i32),
}

impl View for OsuParseError {
    type V = ParseErrorView;

    open spec fn view(&self) -> ParseErrorView {
        match self {
            OsuParseError::InvalidFormat(m) => ParseErrorView::InvalidFormat(m@),
            OsuParseError::Io { path, message } => ParseErrorView::Io(path@, message@),
            OsuParseError::UnsupportedMode { mode } => ParseErrorView::UnsupportedMode(*mode),
        }
    }
}

pub open spec fn parse_error_message(e: ParseErrorView) -> Seq<char> {
    match e {
        ParseErrorView::InvalidFormat(m) => "failed to parse osu file: "@ + m,
        ParseErrorView::Io(path, m) => "failed to read osu file "@ + path + ": "@ + m,
        ParseErrorView::UnsupportedMode(mode) => "unsupported osu mode "@ + decimal_int(mode as int)
            + "; expected mania"@,
    }
}

impl OsuParseError {
    /// The sentence that reports this error.
    pub fn message(&self) -> (r: String)
        ensures
            r@ == parse_error_message(self@),
    {
        let mut out: Vec<char> = Vec::new();
        match self {
            OsuParseError::InvalidFormat(m) => {
                push_str_lit(&mut out, "failed to parse osu file: ");
                push_str_lit(&mut out, m.as_str());
            },
            OsuParseError::Io { path, message } => {
                push_str_lit(&mut out, "failed to read osu file ");
                push_str_lit(&mut out, path.as_str());
                push_str_lit(&mut out, ": ");
                push_str_lit(&mut out, message.as_str());
            },
            OsuParseError::UnsupportedMode { mode } => {
                push_str_lit(&mut out, "unsupported osu mode ");
                push_decimal_i64(&mut out, *mode as i64);
                push_str_lit(&mut out, "; expected mania");
            },
        }
        string_from_chars(out.as_slice())
    }
}

fn push_str_lit(out: &mut Vec<char>, s: &str)
    ensures
        final(out)@ == old(out)@ + s@,
{
    let cs = str_chars(s);
    push_chars(out, &cs);
}

fn invalid(msg: &str) -> (e: OsuParseError)
    ensures
        e@ == ParseErrorView::InvalidFormat(msg@),
{
    OsuParseError::InvalidFormat(msg.to_owned())
}

fn invalid_with(prefix: &str, detail: &Vec<char>) -> (e: OsuParseError)
    ensures
        e@ == ParseErrorView::InvalidFormat(prefix@ + detail@),
{
    let mut out = str_chars(prefix);
    push_chars(&mut out, detail);
    OsuParseError::InvalidFormat(string_from_chars(out.as_slice()))
}

fn invalid_int(prefix: &str, k: IntErrorKind) -> (e: OsuParseError)
    ensures
        e@ == ParseErrorView::InvalidFormat(prefix@ + int_error_message(k)),
{
    let mut out = str_chars(prefix);
    push_str_lit(&mut out, int_error_text(k));
    OsuParseError::InvalidFormat(string_from_chars(out.as_slice()))
}

// ---------------------------------------------------------------------------
// Fields of a line.
// ---------------------------------------------------------------------------

/// `key: value`, both trimmed, split at the first colon.
pub open spec fn split_key_value_spec(line: Seq<char>) -> Option<(Seq<char>, Seq<char>)> {
    let k = find_char(line, ':');
    if k < 0 {
        None
    } else {
        Some((trim(line.take(k)), trim(line.skip(k + 1))))
    }
}

/// The comma-separated fields of a line, each trimmed.
pub open spec fn csv_fields(line: Seq<char>) -> Seq<Seq<char>> {
    split_on(line, ',').map_values(|p: Seq<char>| trim(p))
}

/// The text before the first `c`, or all of `s` (what `s.split(c).next()` gives).
pub open spec fn first_piece(s: Seq<char>, c: char) -> Seq<char> {
    split_on(s, c)[0]
}

fn split_key_value(line: &Vec<char>) -> (r: Option<(Vec<char>, Vec<char>)>)
    ensures
        match r {
            Some((k, v)) => split_key_value_spec(line@) == Some((k@, v@)),
            None => split_key_value_spec(line@) is None,
        },
{
    let n = line.len();
    match find_char_index(line, ':') {
        None => None,
        Some(k) => {
            assert(k < n);
            let key = chars_range(line, 0, k);
            let value = chars_range(line, k + 1, line.len());
            assert(key@ =~= line@.take(k as int));
            assert(value@ =~= line@.skip(k + 1));
            Some((trim_chars(&key), trim_chars(&value)))
        },
    }
}

fn split_csv(line: &Vec<char>) -> (r: Vec<Vec<char>>)
    ensures
        r@.map_values(|w: Vec<char>| w@) == csv_fields(line@),
{
    let parts = split_on_char(line, ',');
    let ghost ps = parts@.map_values(|w: Vec<char>| w@);
    let mut out: Vec<Vec<char>> = Vec::new();
    let mut i: usize = 0;
    while i < parts.len()
        invariant
            i <= parts@.len(),
            ps == parts@.map_values(|w: Vec<char>| w@),
            ps == split_on(line@, ','),
            out@.map_values(|w: Vec<char>| w@) == ps.take(i as int).map_values(
                |p: Seq<char>| trim(p),
            ),
        decreases parts.len() - i,
    {
        let t = trim_chars(&parts[i]);
        let ghost before = out@.map_values(|w: Vec<char>| w@);
        out.push(t);
        proof {
            assert(ps[i as int] == parts@[i as int]@);
            assert(out@.map_values(|w: Vec<char>| w@) =~= before.push(t@));
            assert(ps.take(i + 1).map_values(|p: Seq<char>| trim(p)) =~= ps.take(i as int).map_values(
                |p: Seq<char>| trim(p),
            ).push(trim(ps[i as int])));
        }
        i = i + 1;
    }
    assert(ps.take(parts@.len() as int) =~= ps);
    out
}

fn first_piece_of(s: &Vec<char>, c: char) -> (r: Vec<char>)
    ensures
        r@ == first_piece(s@, c),
{
    match find_char_index(s, c) {
        Some(k) => chars_range(s, 0, k),
        None => {
            assert(s@.subrange(0, s@.len() as int) =~= s@);
            chars_range(s, 0, s.len())
        },
    }
}

fn parse_i32_field(s: &Vec<char>) -> (r: Result<i32, IntErrorKind>)
    ensures
        match parse_int_spec(s@, i32::MIN as int, i32::MAX as int) {
            Ok(v) => r == Ok::<i32, IntErrorKind>(v as i32) && i32::MIN <= v <= i32::MAX,
            Err(e) => r == Err::<i32, IntErrorKind>(e),
        },
{
    match parse_int(s, i32::MIN as i64, i32::MAX as i64) {
        Ok(v) => Ok(v as i32),
        Err(e) => Err(e),
    }
}

fn parse_u8_field(s: &Vec<char>) -> (r: Result<u8, IntErrorKind>)
    ensures
        match parse_int_spec(s@, 0, 255) {
            Ok(v) => r == Ok::<u8, IntErrorKind>(v as u8) && 0 <= v <= 255,
            Err(e) => r == Err::<u8, IntErrorKind>(e),
        },
{
    match parse_int(s, 0, 255) {
        Ok(v) => Ok(v as u8),
        Err(e) => Err(e),
    }
}

} // verus!

verus! {

// ---------------------------------------------------------------------------
// Timing points and hit objects.
// ---------------------------------------------------------------------------

pub open spec fn timing_point_spec(line: Seq<char>) -> Result<TimingPointView, Seq<char>> {
    let parts = csv_fields(line);
    if parts.len() < 8 {
        Err("expected at least 8 comma-separated fields"@)
    } else {
        match parse_int_spec(parts[0], i32::MIN as int, i32::MAX as int) {
            Err(e) => Err(int_error_message(e)),
            Ok(time) => if !is_float_literal(parts[1]) {
                Err(float_error_message(parts[1]))
            } else {
                match parse_int_spec(parts[2], 0, 255) {
                    Err(e) => Err(int_error_message(e)),
                    Ok(meter) => match parse_int_spec(parts[6], i32::MIN as int, i32::MAX as int) {
                        Err(e) => Err(int_error_message(e)),
                        Ok(uninherited) => match parse_int_spec(
                            parts[7],
                            i32::MIN as int,
                            i32::MAX as int,
                        ) {
                            Err(e) => Err(int_error_message(e)),
                            Ok(effects) => Ok(
                                TimingPointView {
                                    time_ms: time as i32,
                                    beat_length: parts[1],
                                    meter: meter as u8,
                                    uninherited: uninherited != 0,
                                    kiai: (effects as i32) & 1i32 != 0,
                                },
                            ),
                        },
                    },
                }
            },
        }
    }
}

fn err_text(s: &str) -> (r: Vec<char>)
    ensures
        r@ == s@,
{
    str_chars(s)
}

fn parse_timing_point(line: &Vec<char>) -> (r: Result<OsuTimingPoint, Vec<char>>)
    ensures
        match timing_point_spec(line@) {
            Ok(p) => r matches Ok(x) && x@ == p,
            Err(m) => r matches Err(x) && x@ == m,
        },
{
    let parts = split_csv(line);
    let ghost ps = parts@.map_values(|w: Vec<char>| w@);
    assert(ps == csv_fields(line@));
    if parts.len() < 8 {
        return Err(err_text("expected at least 8 comma-separated fields"));
    }
    assert(ps[0] == parts@[0]@ && ps[1] == parts@[1]@ && ps[2] == parts@[2]@);
    assert(ps[6] == parts@[6]@ && ps[7] == parts@[7]@);
    let time = match parse_i32_field(&parts[0]) {
        Ok(v) => v,
        Err(e) => return Err(err_text(int_error_text(e))),
    };
    if !float_literal_ok(&parts[1]) {
        if parts[1].len() == 0 {
            return Err(err_text("cannot parse float from empty string"));
        } else {
            return Err(err_text("invalid float literal"));
        }
    }
    let meter = match parse_u8_field(&parts[2]) {
        Ok(v) => v,
        Err(e) => return Err(err_text(int_error_text(e))),
    };
    let uninherited = match parse_i32_field(&parts[6]) {
        Ok(v) => v,
        Err(e) => return Err(err_text(int_error_text(e))),
    };
    let effects = match parse_i32_field(&parts[7]) {
        Ok(v) => v,
        Err(e) => return Err(err_text(int_error_text(e))),
    };
    Ok(
        OsuTimingPoint {
            time_ms: time,
            beat_length: string_from_chars(parts[1].as_slice()),
            meter,
            uninherited: uninherited != 0,
            kiai: effects & 1 != 0,
        },
    )
}

/// A hit object before its lane is resolved against the key count.
#[derive(Debug, Clone, Copy, PartialEq, Eq, Structural)]
pub struct RawHitObject {
    pub x: i32,
    pub time_ms: i32,
    pub object_type: i32,
    pub hold_end_time_ms: Option<i32>,
}

pub open spec fn is_hold_type(object_type: i32) -> bool {
    object_type & 128i32 != 0
}

pub open spec fn is_tap_type(object_type: i32) -> bool {
    object_type & 1i32 != 0
}

pub open spec fn hit_object_spec(line: Seq<char>) -> Result<RawHitObject, ParseErrorView> {
    let parts = csv_fields(line);
    if parts.len() < 5 {
        Err(
            ParseErrorView::InvalidFormat(
                "invalid hit object: expected at least 5 comma-separated fields"@,
            ),
        )
    } else {
        match parse_int_spec(parts[0], i32::MIN as int, i32::MAX as int) {
            Err(e) => Err(
                ParseErrorView::InvalidFormat(
                    "invalid hit object x coordinate: "@ + int_error_message(e),
                ),
            ),
            Ok(x) => match parse_int_spec(parts[2], i32::MIN as int, i32::MAX as int) {
                Err(e) => Err(
                    ParseErrorView::InvalidFormat("invalid hit object time: "@ + int_error_message(e)),
                ),
                Ok(time) => match parse_int_spec(parts[3], i32::MIN as int, i32::MAX as int) {
                    Err(e) => Err(
                        ParseErrorView::InvalidFormat(
                            "invalid hit object type: "@ + int_error_message(e),
                        ),
                    ),
                    Ok(ty) => if is_hold_type(ty as i32) {
                        if parts.len() <= 5 {
                            Err(ParseErrorView::InvalidFormat("hold note missing end time"@))
                        } else {
                            match parse_int_spec(
                                first_piece(parts[5], ':'),
                                i32::MIN as int,
                                i32::MAX as int,
                            ) {
                                Err(e) => Err(
                                    ParseErrorView::InvalidFormat(
                                        "invalid hold note end time: "@ + int_error_message(e),
                                    ),
                                ),
                                Ok(end) => Ok(
                                    RawHitObject {
                                        x: x as i32,
                                        time_ms: time as i32,
                                        object_type: ty as i32,
                                        hold_end_time_ms: Some(end as i32),
                                    },
                                ),
                            }
                        }
                    } else {
                        Ok(
                            RawHitObject {
                                x: x as i32,
                                time_ms: time as i32,
                                object_type: ty as i32,
                                hold_end_time_ms: None,
                            },
                        )
                    },
                },
            },
        }
    }
}

fn parse_hit_object(line: &Vec<char>) -> (r: Result<RawHitObject, OsuParseError>)
    ensures
        match hit_object_spec(line@) {
            Ok(h) => r == Ok::<RawHitObject, OsuParseError>(h),
            Err(e) => r matches Err(x) && x@ == e,
        },
{
    let parts = split_csv(line);
    let ghost ps = parts@.map_values(|w: Vec<char>| w@);
    assert(ps == csv_fields(line@));
    if parts.len() < 5 {
        return Err(invalid("invalid hit object: expected at least 5 comma-separated fields"));
    }
    assert(ps[0] == parts@[0]@ && ps[2] == parts@[2]@ && ps[3] == parts@[3]@);
    let x = match parse_i32_field(&parts[0]) {
        Ok(v) => v,
        Err(e) => return Err(invalid_int("invalid hit object x coordinate: ", e)),
    };
    let time = match parse_i32_field(&parts[2]) {
        Ok(v) => v,
        Err(e) => return Err(invalid_int("invalid hit object time: ", e)),
    };
    let object_type = match parse_i32_field(&parts[3]) {
        Ok(v) => v,
        Err(e) => return Err(invalid_int("invalid hit object type: ", e)),
    };
    let hold_end_time_ms = if object_type & 128 != 0 {
        if parts.len() <= 5 {
            return Err(invalid("hold note missing end time"));
        }
        assert(ps[5] == parts@[5]@);
        let end_text = first_piece_of(&parts[5], ':');
        match parse_i32_field(&end_text) {
            Ok(v) => Some(v),
            Err(e) => return Err(invalid_int("invalid hold note end time: ", e)),
        }
    } else {
        None
    };
    Ok(RawHitObject { x, time_ms: time, object_type, hold_end_time_ms })
}

/// The lane of an x coordinate: the 512-unit-wide field split into `key_count` columns.
pub open spec fn lane_from_x_spec(x: i32, key_count: u8) -> Result<u8, ParseErrorView> {
    if key_count == 0 {
        Err(ParseErrorView::InvalidFormat("Difficulty CircleSize must be greater than zero"@))
    } else if !(0 <= x <= 511) {
        Err(
            ParseErrorView::InvalidFormat(
                "hit object x coordinate out of range: "@ + decimal_int(x as int),
            ),
        )
    } else {
        let lane = (x * key_count) / 512;
        Ok(
            if lane < key_count - 1 {
                lane as u8
            } else {
                (key_count - 1) as u8
            },
        )
    }
}

pub fn lane_from_x(x: i32, key_count: u8) -> (r: Result<u8, OsuParseError>)
    ensures
        match lane_from_x_spec(x, key_count) {
            Ok(l) => r == Ok::<u8, OsuParseError>(l),
            Err(e) => r matches Err(v) && v@ == e,
        },
{
    if key_count == 0 {
        return Err(invalid("Difficulty CircleSize must be greater than zero"));
    }
    if !(0 <= x && x <= 511) {
        let mut out = str_chars("hit object x coordinate out of range: ");
        push_decimal_i64(&mut out, x as i64);
        return Err(OsuParseError::InvalidFormat(string_from_chars(out.as_slice())));
    }
    assert(x * key_count <= 511 * 255) by (nonlinear_arith)
        requires
            0 <= x <= 511,
            key_count <= 255,
    ;
    assert(0 <= x * key_count) by (nonlinear_arith)
        requires
            0 <= x,
            0 <= key_count,
    ;
    let lane: u32 = (x as u32 * key_count as u32) / 512;
    let top: u32 = (key_count - 1) as u32;
    Ok(if lane < top { lane as u8 } else { top as u8 })
}

pub open spec fn resolve_spec(raw: RawHitObject, key_count: u8) -> Result<OsuHitObject, ParseErrorView> {
    match lane_from_x_spec(raw.x, key_count) {
        Err(e) => Err(e),
        Ok(lane) => if is_hold_type(raw.object_type) {
            match raw.hold_end_time_ms {
                None => Err(ParseErrorView::InvalidFormat("hold note missing end time"@)),
                Some(end) => if end <= raw.time_ms {
                    Err(
                        ParseErrorView::InvalidFormat(
                            "hold note end time must be greater than start time"@,
                        ),
                    )
                } else {
                    Ok(OsuHitObject::Hold { lane, start_time_ms: raw.time_ms, end_time_ms: end })
                },
            }
        } else if is_tap_type(raw.object_type) {
            Ok(OsuHitObject::Tap { lane, time_ms: raw.time_ms })
        } else {
            Err(
                ParseErrorView::InvalidFormat(
                    "unsupported hit object type for mania import"@,
                ),
            )
        },
    }
}

/// Resolves a raw hit object into a tap or a hold on its lane.
pub fn resolve_hit_object(raw: RawHitObject, key_count: u8) -> (r: Result<OsuHitObject, OsuParseError>)
    ensures
        match resolve_spec(raw, key_count) {
            Ok(h) => r == Ok::<OsuHitObject, OsuParseError>(h),
            Err(e) => r matches Err(v) && v@ == e,
        },
{
    let lane = match lane_from_x(raw.x, key_count) {
        Ok(l) => l,
        Err(e) => return Err(e),
    };
    if raw.object_type & 128 != 0 {
        let end_time_ms = match raw.hold_end_time_ms {
            Some(v) => v,
            None => return Err(invalid("hold note missing end time")),
        };
        if end_time_ms <= raw.time_ms {
            return Err(invalid("hold note end time must be greater than start time"));
        }
        return Ok(OsuHitObject::Hold { lane, start_time_ms: raw.time_ms, end_time_ms });
    }
    if raw.object_type & 1 != 0 {
        return Ok(OsuHitObject::Tap { lane, time_ms: raw.time_ms });
    }
    Err(invalid("unsupported hit object type for mania import"))
}

/// All raw objects resolved in order; the first one that fails gives the error.
pub open spec fn resolve_all(raws: Seq<RawHitObject>, key_count: u8) -> Result<
    Seq<OsuHitObject>,
    ParseErrorView,
>
    decreases raws.len(),
{
    if raws.len() == 0 {
        Ok(seq![])
    } else {
        match resolve_all(raws.drop_last(), key_count) {
            Err(e) => Err(e),
            Ok(done) => match resolve_spec(raws.last(), key_count) {
                Err(e) => Err(e),
                Ok(h) => Ok(done.push(h)),
            },
        }
    }
}

} // verus!

verus! {

// ---------------------------------------------------------------------------
// Reading a whole file.
// ---------------------------------------------------------------------------

/// What the lines read so far have set.
pub struct BuilderView {
    pub mode: Option<i32>,
    pub audio_filename: Option<Seq<char>>,
    pub metadata: MetadataView,
    pub key_count: Option<u8>,
    pub timing_points: Seq<TimingPointView>,
    pub hit_objects: Seq<RawHitObject>,
}

struct BeatmapBuilder {
    mode: Option<i32>,
    audio_filename: Option<String>,
    metadata: OsuMetadata,
    key_count: Option<u8>,
    timing_points: Vec<OsuTimingPoint>,
    hit_objects: Vec<RawHitObject>,
}

impl BeatmapBuilder {
    spec fn model(&self) -> BuilderView {
        BuilderView {
            mode: self.mode,
            audio_filename: match self.audio_filename {
                Some(s) => Some(s@),
                None => None,
            },
            metadata: self.metadata@,
            key_count: self.key_count,
            timing_points: self.timing_points@.map_values(|p: OsuTimingPoint| p@),
            hit_objects: self.hit_objects@,
        }
    }
}

pub open spec fn empty_builder() -> BuilderView {
    BuilderView {
        mode: None,
        audio_filename: None,
        metadata: empty_metadata(),
        key_count: None,
        timing_points: seq![],
        hit_objects: seq![],
    }
}

pub open spec fn with_mode(b: BuilderView, v: i32) -> BuilderView {
    BuilderView { mode: Some(v), ..b }
}

pub open spec fn with_audio(b: BuilderView, v: Seq<char>) -> BuilderView {
    BuilderView { audio_filename: Some(v), ..b }
}

pub open spec fn with_key_count(b: BuilderView, v: u8) -> BuilderView {
    BuilderView { key_count: Some(v), ..b }
}

pub open spec fn with_metadata(b: BuilderView, m: MetadataView) -> BuilderView {
    BuilderView { metadata: m, ..b }
}

pub open spec fn with_timing_point(b: BuilderView, p: TimingPointView) -> BuilderView {
    BuilderView { timing_points: b.timing_points.push(p), ..b }
}

pub open spec fn with_hit_object(b: BuilderView, h: RawHitObject) -> BuilderView {
    BuilderView { hit_objects: b.hit_objects.push(h), ..b }
}

/// A `[General]` line: `AudioFilename` and `Mode` are kept.
pub open spec fn general_spec(b: BuilderView, line: Seq<char>) -> Result<BuilderView, ParseErrorView> {
    match split_key_value_spec(line) {
        None => Err(ParseErrorView::InvalidFormat("invalid key/value line: "@ + line)),
        Some((key, value)) => {
            let k = lower_all(key);
            if k == "audiofilename"@ {
                Ok(with_audio(b, value))
            } else if k == "mode"@ {
                match parse_int_spec(value, i32::MIN as int, i32::MAX as int) {
                    Ok(v) => Ok(with_mode(b, v as i32)),
                    Err(e) => Err(
                        ParseErrorView::InvalidFormat("invalid General Mode: "@ + int_error_message(e)),
                    ),
                }
            } else {
                Ok(b)
            }
        },
    }
}

/// The metadata with the entry named `key` (lower-cased) set to `value`.
pub open spec fn set_metadata(m: MetadataView, key: Seq<char>, value: Seq<char>) -> MetadataView {
    if key == "title"@ {
        MetadataView { title: Some(value), ..m }
    } else if key == "titleunicode"@ {
        MetadataView { title_unicode: Some(value), ..m }
    } else if key == "artist"@ {
        MetadataView { artist: Some(value), ..m }
    } else if key == "artistunicode"@ {
        MetadataView { artist_unicode: Some(value), ..m }
    } else if key == "creator"@ {
        MetadataView { creator: Some(value), ..m }
    } else if key == "version"@ {
        MetadataView { version: Some(value), ..m }
    } else {
        m
    }
}

pub open spec fn metadata_spec(b: BuilderView, line: Seq<char>) -> Result<BuilderView, ParseErrorView> {
    match split_key_value_spec(line) {
        None => Err(ParseErrorView::InvalidFormat("invalid key/value line: "@ + line)),
        Some((key, value)) => Ok(with_metadata(b, set_metadata(b.metadata, lower_all(key), value))),
    }
}

/// A `[Difficulty]` line: `CircleSize` is the key count.
pub open spec fn difficulty_spec(b: BuilderView, line: Seq<char>) -> Result<BuilderView, ParseErrorView> {
    match split_key_value_spec(line) {
        None => Err(ParseErrorView::InvalidFormat("invalid key/value line: "@ + line)),
        Some((key, value)) => if lower_all(key) == "circlesize"@ {
            match parse_int_spec(value, 0, 255) {
                Ok(v) => Ok(with_key_count(b, v as u8)),
                Err(e) => Err(
                    ParseErrorView::InvalidFormat(
                        "invalid Difficulty CircleSize: "@ + int_error_message(e),
                    ),
                ),
            }
        } else {
            Ok(b)
        },
    }
}

pub open spec fn is_comment(line: Seq<char>) -> bool {
    line.len() >= 2 && line[0] == '/' && line[1] == '/'
}

pub open spec fn is_section_header(line: Seq<char>) -> bool {
    line.len() > 0 && line[0] == '[' && line.last() == ']'
}

pub open spec fn section_name(line: Seq<char>) -> Seq<char> {
    lower_all(line.subrange(1, line.len() - 1))
}

/// The effect of the line at `index` (counted from 0) on the builder and the current
/// section.
pub open spec fn step_line(b: BuilderView, section: Seq<char>, index: int, raw: Seq<char>) -> Result<
    (BuilderView, Seq<char>),
    ParseErrorView,
> {
    let line = trim(raw);
    if line.len() == 0 || is_comment(line) {
        Ok((b, section))
    } else if is_section_header(line) {
        Ok((b, section_name(line)))
    } else {
        let r = if section == "general"@ {
            general_spec(b, line)
        } else if section == "metadata"@ {
            metadata_spec(b, line)
        } else if section == "difficulty"@ {
            difficulty_spec(b, line)
        } else if section == "timingpoints"@ {
            match timing_point_spec(line) {
                Ok(p) => Ok(with_timing_point(b, p)),
                Err(reason) => Err(
                    ParseErrorView::InvalidFormat(
                        "line "@ + decimal((index + 1) as nat) + ": invalid timing point: "@
                            + reason,
                    ),
                ),
            }
        } else if section == "hitobjects"@ {
            match hit_object_spec(line) {
                Ok(h) => Ok(with_hit_object(b, h)),
                Err(e) => Err(e),
            }
        } else {
            Ok(b)
        };
        match r {
            Ok(nb) => Ok((nb, section)),
            Err(e) => Err(e),
        }
    }
}

/// The state after the first `k` lines.
pub open spec fn parse_prefix(lines: Seq<Seq<char>>, k: int) -> Result<
    (BuilderView, Seq<char>),
    ParseErrorView,
>
    decreases k,
{
    if k <= 0 {
        Ok((empty_builder(), seq![]))
    } else {
        match parse_prefix(lines, k - 1) {
            Err(e) => Err(e),
            Ok((b, section)) => step_line(b, section, k - 1, lines[k - 1]),
        }
    }
}

/// The beatmap the lines have described, or the first thing that is missing or wrong.
pub open spec fn finalize_spec(b: BuilderView) -> Result<BeatmapView, ParseErrorView> {
    match b.mode {
        None => Err(ParseErrorView::InvalidFormat("missing General Mode"@)),
        Some(mode) => if mode != 3 {
            Err(ParseErrorView::UnsupportedMode(mode))
        } else {
            match b.key_count {
                None => Err(ParseErrorView::InvalidFormat("missing Difficulty CircleSize"@)),
                Some(key_count) => match b.audio_filename {
                    None => Err(ParseErrorView::InvalidFormat("missing General AudioFilename"@)),
                    Some(audio) => if trim(audio).len() == 0 {
                        Err(ParseErrorView::InvalidFormat("General AudioFilename cannot be empty"@))
                    } else {
                        match resolve_all(b.hit_objects, key_count) {
                            Err(e) => Err(e),
                            Ok(hits) => Ok(
                                BeatmapView {
                                    mode: OsuMode::Mania,
                                    key_count,
                                    audio_filename: audio,
                                    metadata: b.metadata,
                                    timing_points: b.timing_points,
                                    hit_objects: hits,
                                },
                            ),
                        }
                    },
                },
            }
        },
    }
}

/// What reading `input` as a beatmap gives.
pub open spec fn parse_osu_spec(input: Seq<char>) -> Result<BeatmapView, ParseErrorView> {
    let lines = raw_lines(input);
    match parse_prefix(lines, lines.len() as int) {
        Err(e) => Err(e),
        Ok((b, _)) => finalize_spec(b),
    }
}

pub open spec fn parse_result_view(r: Result<OsuBeatmap, OsuParseError>) -> Result<
    BeatmapView,
    ParseErrorView,
> {
    match r {
        Ok(m) => Ok(m@),
        Err(e) => Err(e@),
    }
}

} // verus!

verus! {

pub open spec fn update_matches(
    r: Result<(), OsuParseError>,
    after: BuilderView,
    s: Result<BuilderView, ParseErrorView>,
) -> bool {
    match s {
        Ok(nb) => r is Ok && after == nb,
        Err(e) => r matches Err(x) && x@ == e,
    }
}

impl BeatmapBuilder {
    fn new() -> (b: Self)
        ensures
            b.model() == empty_builder(),
    {
        let b = BeatmapBuilder {
            mode: None,
            audio_filename: None,
            metadata: OsuMetadata::default(),
            key_count: None,
            timing_points: Vec::new(),
            hit_objects: Vec::new(),
        };
        assert(b.model().timing_points =~= Seq::<TimingPointView>::empty());
        b
    }

    fn apply_general(&mut self, line: &Vec<char>) -> (r: Result<(), OsuParseError>)
        ensures
            update_matches(r, final(self).model(), general_spec(old(self).model(), line@)),
    {
        let (key, value) = match split_key_value(line) {
            Some(kv) => kv,
            None => return Err(invalid_with("invalid key/value line: ", line)),
        };
        let k = chars_to_ascii_lower(&key);
        if chars_eq_str(&k, "audiofilename") {
            self.audio_filename = Some(string_from_chars(value.as_slice()));
        } else if chars_eq_str(&k, "mode") {
            match parse_i32_field(&value) {
                Ok(v) => {
                    self.mode = Some(v);
                },
                Err(e) => return Err(invalid_int("invalid General Mode: ", e)),
            }
        }
        Ok(())
    }

    fn apply_metadata(&mut self, line: &Vec<char>) -> (r: Result<(), OsuParseError>)
        ensures
            update_matches(r, final(self).model(), metadata_spec(old(self).model(), line@)),
    {
        let (key, value) = match split_key_value(line) {
            Some(kv) => kv,
            None => return Err(invalid_with("invalid key/value line: ", line)),
        };
        let k = chars_to_ascii_lower(&key);
        if chars_eq_str(&k, "title") {
            self.metadata.title = Some(string_from_chars(value.as_slice()));
        } else if chars_eq_str(&k, "titleunicode") {
            self.metadata.title_unicode = Some(string_from_chars(value.as_slice()));
        } else if chars_eq_str(&k, "artist") {
            self.metadata.artist = Some(string_from_chars(value.as_slice()));
        } else if chars_eq_str(&k, "artistunicode") {
            self.metadata.artist_unicode = Some(string_from_chars(value.as_slice()));
        } else if chars_eq_str(&k, "creator") {
            self.metadata.creator = Some(string_from_chars(value.as_slice()));
        } else if chars_eq_str(&k, "version") {
            self.metadata.version = Some(string_from_chars(value.as_slice()));
        }
        Ok(())
    }

    fn apply_difficulty(&mut self, line: &Vec<char>) -> (r: Result<(), OsuParseError>)
        ensures
            update_matches(r, final(self).model(), difficulty_spec(old(self).model(), line@)),
    {
        let (key, value) = match split_key_value(line) {
            Some(kv) => kv,
            None => return Err(invalid_with("invalid key/value line: ", line)),
        };
        let k = chars_to_ascii_lower(&key);
        if chars_eq_str(&k, "circlesize") {
            match parse_u8_field(&value) {
                Ok(v) => {
                    self.key_count = Some(v);
                },
                Err(e) => return Err(invalid_int("invalid Difficulty CircleSize: ", e)),
            }
        }
        Ok(())
    }

    fn apply_timing_point(&mut self, index: usize, line: &Vec<char>) -> (r: Result<
        (),
        OsuParseError,
    >)
        requires
            index < usize::MAX,
        ensures
            update_matches(
                r,
                final(self).model(),
                match timing_point_spec(line@) {
                    Ok(p) => Ok(with_timing_point(old(self).model(), p)),
                    Err(reason) => Err(
                        ParseErrorView::InvalidFormat(
                            "line "@ + decimal((index + 1) as nat) + ": invalid timing point: "@
                                + reason,
                        ),
                    ),
                },
            ),
    {
        match parse_timing_point(line) {
            Ok(p) => {
                let ghost before = self.timing_points@.map_values(|q: OsuTimingPoint| q@);
                let ghost pv = p@;
                self.timing_points.push(p);
                assert(self.timing_points@.map_values(|q: OsuTimingPoint| q@) =~= before.push(pv));
                Ok(())
            },
            Err(reason) => {
                let mut out = str_chars("line ");
                push_decimal(&mut out, index as u64 + 1);
                push_str_lit(&mut out, ": invalid timing point: ");
                push_chars(&mut out, &reason);
                Err(OsuParseError::InvalidFormat(string_from_chars(out.as_slice())))
            },
        }
    }

    fn apply_hit_object(&mut self, line: &Vec<char>) -> (r: Result<(), OsuParseError>)
        ensures
            update_matches(
                r,
                final(self).model(),
                match hit_object_spec(line@) {
                    Ok(h) => Ok(with_hit_object(old(self).model(), h)),
                    Err(e) => Err(e),
                },
            ),
    {
        match parse_hit_object(line) {
            Ok(h) => {
                self.hit_objects.push(h);
                Ok(())
            },
            Err(e) => Err(e),
        }
    }

    fn step(&mut self, section: &mut Vec<char>, index: usize, raw: &Vec<char>) -> (r: Result<
        (),
        OsuParseError,
    >)
        requires
            index < usize::MAX,
        ensures
            match step_line(old(self).model(), old(section)@, index as int, raw@) {
                Ok((nb, ns)) => r is Ok && final(self).model() == nb && final(section)@ == ns,
                Err(e) => r matches Err(x) && x@ == e,
            },
    {
        let line = trim_chars(raw);
        let n = line.len();
        if n == 0 || (n >= 2 && line[0] == '/' && line[1] == '/') {
            return Ok(());
        }
        if line[0] == '[' && line[n - 1] == ']' {
            let inner = chars_range(&line, 1, n - 1);
            *section = chars_to_ascii_lower(&inner);
            return Ok(());
        }
        if chars_eq_str(section, "general") {
            self.apply_general(&line)
        } else if chars_eq_str(section, "metadata") {
            self.apply_metadata(&line)
        } else if chars_eq_str(section, "difficulty") {
            self.apply_difficulty(&line)
        } else if chars_eq_str(section, "timingpoints") {
            self.apply_timing_point(index, &line)
        } else if chars_eq_str(section, "hitobjects") {
            self.apply_hit_object(&line)
        } else {
            Ok(())
        }
    }
}

proof fn lemma_resolve_err_stays(raws: Seq<RawHitObject>, k: int, key_count: u8)
    requires
        0 <= k <= raws.len(),
        resolve_all(raws.take(k), key_count) is Err,
    ensures
        resolve_all(raws, key_count) == resolve_all(raws.take(k), key_count),
    decreases raws.len() - k,
{
    if k < raws.len() {
        assert(raws.drop_last().take(k) =~= raws.take(k));
        lemma_resolve_err_stays(raws.drop_last(), k, key_count);
    } else {
        assert(raws.take(k) =~= raws);
    }
}

fn resolve_hit_objects(raws: &Vec<RawHitObject>, key_count: u8) -> (r: Result<
    Vec<OsuHitObject>,
    OsuParseError,
>)
    ensures
        match resolve_all(raws@, key_count) {
            Ok(hs) => r matches Ok(v) && v@ == hs,
            Err(e) => r matches Err(x) && x@ == e,
        },
{
    let mut out: Vec<OsuHitObject> = Vec::new();
    let mut i: usize = 0;
    while i < raws.len()
        invariant
            i <= raws@.len(),
            resolve_all(raws@.take(i as int), key_count) == Ok::<Seq<OsuHitObject>, ParseErrorView>(out@),
        decreases raws.len() - i,
    {
        assert(raws@.take(i + 1).drop_last() =~= raws@.take(i as int));
        assert(raws@.take(i + 1).last() == raws@[i as int]);
        match resolve_hit_object(raws[i], key_count) {
            Ok(h) => {
                out.push(h);
            },
            Err(e) => {
                proof {
                    lemma_resolve_err_stays(raws@, i + 1, key_count);
                }
                return Err(e);
            },
        }
        i = i + 1;
    }
    assert(raws@.take(raws@.len() as int) =~= raws@);
    Ok(out)
}

fn finalize(b: BeatmapBuilder) -> (r: Result<OsuBeatmap, OsuParseError>)
    ensures
        parse_result_view(r) == finalize_spec(b.model()),
{
    let ghost m = b.model();
    let mode = match b.mode {
        Some(v) => v,
        None => return Err(invalid("missing General Mode")),
    };
    if mode != 3 {
        return Err(OsuParseError::UnsupportedMode { mode });
    }
    let key_count = match b.key_count {
        Some(v) => v,
        None => return Err(invalid("missing Difficulty CircleSize")),
    };
    let audio_filename = match b.audio_filename {
        Some(v) => v,
        None => return Err(invalid("missing General AudioFilename")),
    };
    let audio_chars = str_chars(audio_filename.as_str());
    let trimmed = trim_chars(&audio_chars);
    if trimmed.len() == 0 {
        return Err(invalid("General AudioFilename cannot be empty"));
    }
    let hit_objects = match resolve_hit_objects(&b.hit_objects, key_count) {
        Ok(v) => v,
        Err(e) => return Err(e),
    };
    Ok(
        OsuBeatmap {
            mode: OsuMode::Mania,
            key_count,
            audio_filename,
            metadata: b.metadata,
            timing_points: b.timing_points,
            hit_objects,
        },
    )
}

proof fn lemma_prefix_err_stays(lines: Seq<Seq<char>>, k: int, n: int)
    requires
        0 <= k <= n,
        parse_prefix(lines, k) is Err,
    ensures
        parse_prefix(lines, n) == parse_prefix(lines, k),
    decreases n - k,
{
    if n > k {
        lemma_prefix_err_stays(lines, k, n - 1);
    }
}

/// Reads the text of a `.osu` file.
pub fn parse_osu_str(input: &str) -> (r: Result<OsuBeatmap, OsuParseError>)
    ensures
        parse_result_view(r) == parse_osu_spec(input@),
{
    let chars = str_chars(input);
    let lines = lines_of(&chars);
    let ghost ls = lines@.map_values(|w: Vec<char>| w@);
    let mut builder = BeatmapBuilder::new();
    let mut section: Vec<char> = Vec::new();
    let mut i: usize = 0;
    assert(section@ =~= Seq::<char>::empty());
    while i < lines.len()
        invariant
            i <= lines@.len(),
            ls == lines@.map_values(|w: Vec<char>| w@),
            ls == raw_lines(input@),
            parse_prefix(ls, i as int) == Ok::<(BuilderView, Seq<char>), ParseErrorView>(
                (builder.model(), section@),
            ),
        decreases lines.len() - i,
    {
        assert(ls[i as int] == lines@[i as int]@);
        match builder.step(&mut section, i, &lines[i]) {
            Ok(()) => {},
            Err(e) => {
                proof {
                    lemma_prefix_err_stays(ls, i + 1, ls.len() as int);
                }
                return Err(e);
            },
        }
        i = i + 1;
    }
    finalize(builder)
}

/// Law: an x coordinate on the 512-unit field lands in the column that holds it when
/// the field is cut into `key_count` equal columns: lane `l` covers the x with
/// `l * 512 <= x * key_count < (l + 1) * 512`, and the last lane also takes what
/// lies past its end.
pub proof fn lemma_lane_covers_x(x: i32, key_count: u8)
    requires
        key_count >= 1,
        0 <= x <= 511,
    ensures
        lane_from_x_spec(x, key_count) matches Ok(l) && (l as int) < key_count && (l as int) * 512
            <= x * key_count && ((l as int) + 1 < key_count ==> x * key_count < ((l as int) + 1)
            * 512),
{
    let p: int = x * key_count;
    assert(0 <= p) by (nonlinear_arith)
        requires
            0 <= x,
            0 <= key_count,
            p == x * key_count,
    ;
    vstd::arithmetic::div_mod::lemma_fundamental_div_mod(p, 512);
    vstd::arithmetic::div_mod::lemma_mod_pos_bound(p, 512);
}

/// Law: the x coordinate at the centre of column `i`, `floor((2i + 1) * 256 / k)`, maps
/// to lane `i`, for every key count `k` and every column `i < k`.
pub proof fn lemma_column_centre_lane(i: u8, key_count: u8)
    requires
        i < key_count,
    ensures
        lane_from_x_spec((((2 * i + 1) * 256) / (key_count as int)) as i32, key_count) == Ok::<
            u8,
            ParseErrorView,
        >(i),
{
    let k: int = key_count as int;
    let a: int = (2 * i + 1) * 256;
    let x: int = a / k;
    vstd::arithmetic::div_mod::lemma_fundamental_div_mod(a, k);
    vstd::arithmetic::div_mod::lemma_mod_pos_bound(a, k);
    let r: int = a % k;
    assert(0 <= x <= 511) by (nonlinear_arith)
        requires
            a == k * x + r,
            0 <= r < k,
            1 <= k <= 255,
            a == (2 * i + 1) * 256,
            0 <= i < k,
    ;
    let p: int = x * k;
    assert(512 * i < p < 512 * (i + 1)) by (nonlinear_arith)
        requires
            a == k * x + r,
            0 <= r < k,
            1 <= k <= 255,
            a == (2 * i + 1) * 256,
            p == x * k,
    ;
    vstd::arithmetic::div_mod::lemma_fundamental_div_mod(p, 512);
    vstd::arithmetic::div_mod::lemma_mod_pos_bound(p, 512);
    assert(p / 512 == i);
    assert(((x as i32) as int) == x);
}

} // verus!
