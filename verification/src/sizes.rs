//! Resolving target pixel sizes: named quality presets and user-supplied
//! comma-separated size lists.

use vstd::prelude::*;

verus! {

/// A named shorthand selecting a predefined set of target sizes.
#[derive(Clone, Copy, Debug, PartialEq, Eq, Structural)]
pub enum QualityPreset {
    Basic,
    Standard,
    Full,
}

/// The sizes that each quality preset selects, in the order they are produced.
pub open spec fn preset_sizes(preset: QualityPreset) -> Seq<u32> {
    match preset {
        QualityPreset::Basic => seq![16u32, 32u32, 128u32, 256u32, 512u32],
        QualityPreset::Standard => seq![16u32, 32u32, 64u32, 128u32, 256u32, 512u32],
        QualityPreset::Full => seq![16u32, 32u32, 64u32, 128u32, 256u32, 512u32],
    }
}

/// Returns the ordered target sizes selected by `preset`.
pub fn get_preset_sizes(preset: &QualityPreset) -> (sizes: Vec<u32>)
    ensures
        sizes@ == preset_sizes(*preset),
{
    let sizes: Vec<u32> = match preset {
        QualityPreset::Basic => vec![16, 32, 128, 256, 512],
        QualityPreset::Standard => vec![16, 32, 64, 128, 256, 512],
        QualityPreset::Full => vec![16, 32, 64, 128, 256, 512],
    };
    proof {
        assert(sizes@ =~= preset_sizes(*preset));
    }
    sizes
}

/// The "full" preset selects exactly the same sizes as "standard"; nothing
/// beyond the standard set is currently produced.
pub proof fn lemma_full_preset_matches_standard()
    ensures
        preset_sizes(QualityPreset::Full) == preset_sizes(QualityPreset::Standard),
{
}

/// A size token that could not be read as an unsigned integer.  `token` is
/// the offending comma-separated piece, exactly as it stood in the input.
#[derive(Debug)]
pub struct SizeParseError {
    pub token: String,
}

/// The whitespace characters tolerated around a size token: the Unicode
/// White_Space set, exactly what `str::trim` removes.
pub open spec fn is_space_char(c: char) -> bool {
    c == '\u{9}' || c == '\u{A}' || c == '\u{B}' || c == '\u{C}' || c == '\u{D}' || c == ' '
        || c == '\u{85}' || c == '\u{A0}' || c == '\u{1680}' || (0x2000 <= c as int && c as int
        <= 0x200A) || c == '\u{2028}' || c == '\u{2029}' || c == '\u{202F}' || c == '\u{205F}'
        || c == '\u{3000}'
}

/// A decimal digit.
pub open spec fn is_digit_char(c: char) -> bool {
    48 <= c as int && c as int <= 57
}

/// The index of the first comma at or after `from`, or the length of `s`
/// where no comma follows.
pub open spec fn token_end(s: Seq<char>, from: int) -> int
    decreases s.len() - from,
{
    if from < 0 || from >= s.len() {
        s.len() as int
    } else if s[from] == ',' {
        from
    } else {
        token_end(s, from + 1)
    }
}

proof fn lemma_token_end_bounds(s: Seq<char>, from: int)
    requires
        0 <= from <= s.len(),
    ensures
        from <= token_end(s, from) <= s.len(),
        token_end(s, from) < s.len() ==> s[token_end(s, from)] == ',',
        forall|j: int| from <= j < token_end(s, from) ==> s[j] != ',',
    decreases s.len() - from,
{
    if from < s.len() && s[from] != ',' {
        lemma_token_end_bounds(s, from + 1);
    }
}

/// A scan that stopped at `e` found the first comma: positions before `e`
/// hold no comma, and `e` is either the end or a comma.
proof fn lemma_token_end_from_scan(s: Seq<char>, e: int)
    requires
        0 <= e <= s.len(),
        forall|j: int| 0 <= j < e ==> s[j] != ',',
        e < s.len() ==> s[e] == ',',
    ensures
        token_end(s, 0) == e,
    decreases e,
{
    lemma_token_end_shift(s, 0, e);
}

proof fn lemma_token_end_shift(s: Seq<char>, from: int, e: int)
    requires
        0 <= from <= e <= s.len(),
        forall|j: int| from <= j < e ==> s[j] != ',',
        e < s.len() ==> s[e] == ',',
    ensures
        token_end(s, from) == e,
    decreases e - from,
{
    if from < e {
        lemma_token_end_shift(s, from + 1, e);
    }
}

/// The comma-separated pieces of `s`, in order; an input with no comma is a
/// single piece, so the result is never empty.
pub open spec fn split_tokens(s: Seq<char>) -> Seq<Seq<char>>
    decreases s.len(),
    via split_tokens_decreases
{
    let e = token_end(s, 0);
    if e >= s.len() {
        seq![s]
    } else {
        seq![s.take(e)] + split_tokens(s.skip(e + 1))
    }
}

#[via_fn]
proof fn split_tokens_decreases(s: Seq<char>) {
    lemma_token_end_bounds(s, 0);
}

/// `t` with leading whitespace removed.
pub open spec fn trim_start(t: Seq<char>) -> Seq<char>
    decreases t.len(),
{
    if t.len() > 0 && is_space_char(t[0]) {
        trim_start(t.drop_first())
    } else {
        t
    }
}

/// `t` with trailing whitespace removed.
pub open spec fn trim_end(t: Seq<char>) -> Seq<char>
    decreases t.len(),
{
    if t.len() > 0 && is_space_char(t.last()) {
        trim_end(t.drop_last())
    } else {
        t
    }
}

/// `t` with surrounding whitespace removed.
pub open spec fn trimmed(t: Seq<char>) -> Seq<char> {
    trim_end(trim_start(t))
}

/// The numeric part of a trimmed token: an optional leading plus sign is
/// dropped, as the standard unsigned-integer grammar allows one.
pub open spec fn digit_run(t: Seq<char>) -> Seq<char> {
    if t.len() > 0 && t[0] == '+' {
        t.drop_first()
    } else {
        t
    }
}

/// The value of a digit string read in base ten.
pub open spec fn digits_value(t: Seq<char>) -> int
    decreases t.len(),
{
    if t.len() == 0 {
        0
    } else {
        digits_value(t.drop_last()) * 10 + (t.last() as int - 48)
    }
}

pub open spec fn all_digits(t: Seq<char>) -> bool {
    forall|i: int| 0 <= i < t.len() ==> is_digit_char(#[trigger] t[i])
}

/// The value a size token denotes: surrounding whitespace is tolerated, an
/// optional plus sign is allowed, and the digits must be non-empty and fit
/// in a `u32`; anything else has no value.
pub open spec fn token_value(t: Seq<char>) -> Option<u32> {
    let d = digit_run(trimmed(t));
    if d.len() > 0 && all_digits(d) && digits_value(d) <= u32::MAX {
        Some(digits_value(d) as u32)
    } else {
        None
    }
}

/// Every comma-separated piece of `s` denotes a value.
pub open spec fn all_tokens_valid(s: Seq<char>) -> bool {
    forall|i: int|
        0 <= i < split_tokens(s).len() ==> token_value(#[trigger] split_tokens(s)[i]) is Some
}

/// The sizes denoted by the pieces of `s`, in order.
pub open spec fn parsed_sizes(s: Seq<char>) -> Seq<u32> {
    Seq::new(split_tokens(s).len(), |i: int| token_value(split_tokens(s)[i])->0)
}

/// The index of the first token without a value, or the token count when
/// all have one.
pub open spec fn first_invalid(tokens: Seq<Seq<char>>) -> int
    decreases tokens.len(),
{
    if tokens.len() == 0 {
        0
    } else if token_value(tokens[0]) is None {
        0
    } else {
        1 + first_invalid(tokens.drop_first())
    }
}

/// Where some token has no value, `first_invalid` is in range and lands on
/// a token without a value.
proof fn lemma_first_invalid_in_range(tokens: Seq<Seq<char>>)
    requires
        exists|i: int| 0 <= i < tokens.len() && token_value(#[trigger] tokens[i]) is None,
    ensures
        0 <= first_invalid(tokens) < tokens.len(),
        token_value(tokens[first_invalid(tokens)]) is None,
    decreases tokens.len(),
{
    if token_value(tokens[0]) is Some {
        let w = choose|i: int| 0 <= i < tokens.len() && token_value(#[trigger] tokens[i]) is None;
        let rest = tokens.drop_first();
        assert(rest[w - 1] == tokens[w]);
        lemma_first_invalid_in_range(rest);
    }
}

proof fn lemma_trim_start_skip(t: Seq<char>, a: int)
    requires
        0 <= a <= t.len(),
        forall|j: int| 0 <= j < a ==> is_space_char(t[j]),
        a < t.len() ==> !is_space_char(t[a]),
    ensures
        trim_start(t) == t.skip(a),
    decreases a,
{
    if a == 0 {
        assert(t.skip(0) =~= t);
    } else {
        assert(is_space_char(t[0]));
        let u = t.drop_first();
        assert(forall|j: int| 0 <= j < a - 1 ==> is_space_char(u[j]));
        lemma_trim_start_skip(u, a - 1);
        assert(u.skip(a - 1) =~= t.skip(a));
    }
}

proof fn lemma_trim_end_take(u: Seq<char>, b: int)
    requires
        0 <= b <= u.len(),
        forall|j: int| b <= j < u.len() ==> is_space_char(u[j]),
        b > 0 ==> !is_space_char(u[b - 1]),
    ensures
        trim_end(u) == u.take(b),
    decreases u.len() - b,
{
    if b == u.len() {
        assert(u.take(b) =~= u);
    } else {
        assert(is_space_char(u.last()));
        let v = u.drop_last();
        lemma_trim_end_take(v, b);
        assert(v.take(b) =~= u.take(b));
    }
}

/// A scan that found `a` and `b` as the bounds of the non-whitespace middle
/// of `t` has found the trimmed token.
proof fn lemma_trimmed_subrange(t: Seq<char>, a: int, b: int)
    requires
        0 <= a <= b <= t.len(),
        forall|j: int| 0 <= j < a ==> is_space_char(t[j]),
        a < t.len() ==> !is_space_char(t[a]),
        forall|j: int| b <= j < t.len() ==> is_space_char(t[j]),
        b > a ==> !is_space_char(t[b - 1]),
    ensures
        trimmed(t) == t.subrange(a, b),
{
    lemma_trim_start_skip(t, a);
    let u = t.skip(a);
    assert(forall|j: int| b - a <= j < u.len() ==> is_space_char(#[trigger] u[j]));
    if b == a && a < t.len() {
        assert(!is_space_char(u[0]));
        assert(is_space_char(u[0]));
    }
    lemma_trim_end_take(u, b - a);
    assert(u.take(b - a) =~= t.subrange(a, b));
}

proof fn lemma_digits_value_nonneg(d: Seq<char>)
    requires
        all_digits(d),
    ensures
        digits_value(d) >= 0,
    decreases d.len(),
{
    if d.len() > 0 {
        assert(all_digits(d.drop_last())) by {
            assert(forall|i: int|
                0 <= i < d.len() - 1 ==> is_digit_char(#[trigger] d.drop_last()[i]));
        }
        lemma_digits_value_nonneg(d.drop_last());
    }
}

/// Appending digits never lowers the value: the value of a digit string is
/// at least the value of any of its prefixes.
proof fn lemma_digits_value_prefix(d: Seq<char>, k: int)
    requires
        all_digits(d),
        0 <= k <= d.len(),
    ensures
        digits_value(d) >= digits_value(d.take(k)),
    decreases d.len() - k,
{
    if k < d.len() {
        let p = d.take(k);
        let q = d.take(k + 1);
        assert(q.drop_last() =~= p);
        assert(all_digits(p)) by {
            assert(forall|i: int| 0 <= i < k ==> is_digit_char(#[trigger] p[i]));
        }
        lemma_digits_value_nonneg(p);
        assert(digits_value(q) == digits_value(p) * 10 + (d[k] as int - 48));
        lemma_digits_value_prefix(d, k + 1);
    } else {
        assert(d.take(k) =~= d);
    }
}

/// Reads one size token: whitespace is trimmed, an optional plus sign
/// allowed, then a non-empty digit string that fits in a `u32`.
fn parse_one_token(t: &str) -> (value: Option<u32>)
    ensures
        value == token_value(t@),
{
    let n = t.unicode_len();
    let mut a: usize = 0;
    while a < n && is_space(t.get_char(a))
        invariant
            0 <= a <= n,
            n == t@.len(),
            forall|j: int| 0 <= j < a ==> is_space_char(t@[j]),
        decreases n - a,
    {
        a = a + 1;
    }
    let mut b: usize = n;
    while b > a && is_space(t.get_char(b - 1))
        invariant
            a <= b <= n,
            n == t@.len(),
            forall|j: int| b <= j < n ==> is_space_char(t@[j]),
        decreases b,
    {
        b = b - 1;
    }
    proof {
        lemma_trimmed_subrange(t@, a as int, b as int);
    }
    let mut i: usize = a;
    if i < b && t.get_char(i) == '+' {
        i = i + 1;
    }
    let ghost d = digit_run(trimmed(t@));
    proof {
        assert(d =~= t@.subrange(i as int, b as int));
    }
    if i == b {
        return None;
    }
    let mut val: u32 = 0;
    let mut j: usize = i;
    while j < b
        invariant
            i <= j <= b <= n,
            i < b,
            n == t@.len(),
            d == t@.subrange(i as int, b as int),
            d == digit_run(trimmed(t@)),
            forall|q: int| i <= q < j ==> is_digit_char(t@[q]),
            val as int == digits_value(t@.subrange(i as int, j as int)),
        decreases b - j,
    {
        let c = t.get_char(j);
        let cv = c as u32;
        if cv < 48 || cv > 57 {
            proof {
                assert(d[j - i] == t@[j as int]);
                assert(!is_digit_char(d[j - i]));
            }
            return None;
        }
        let dig = cv - 48;
        if val > (u32::MAX - dig) / 10 {
            proof {
                let pre = t@.subrange(i as int, j as int + 1);
                assert(pre.drop_last() =~= t@.subrange(i as int, j as int));
                assert(digits_value(pre) == (val as int) * 10 + dig) by {
                    assert(pre.last() == t@[j as int]);
                }
                assert((val as int) * 10 + dig > u32::MAX) by (nonlinear_arith)
                    requires
                        val > (u32::MAX - dig) / 10,
                        dig <= 9,
                ;
                if all_digits(d) {
                    assert(pre =~= d.take(j - i + 1));
                    lemma_digits_value_prefix(d, j - i + 1);
                }
            }
            return None;
        }
        proof {
            let pre = t@.subrange(i as int, j as int + 1);
            assert(pre.drop_last() =~= t@.subrange(i as int, j as int));
            assert(pre.last() == t@[j as int]);
            assert((val as int) * 10 + dig <= u32::MAX) by (nonlinear_arith)
                requires
                    val <= (u32::MAX - dig) / 10,
                    dig <= 9,
            ;
        }
        val = val * 10 + dig;
        j = j + 1;
    }
    proof {
        assert(d =~= t@.subrange(i as int, j as int));
        assert(all_digits(d));
    }
    Some(val)
}

/// Whether `c` is one of the whitespace characters tolerated around a token.
fn is_space(c: char) -> (space: bool)
    ensures
        space == is_space_char(c),
{
    let cv = c as u32;
    (0x9 <= cv && cv <= 0xD) || c == ' ' || c == '\u{85}' || c == '\u{A0}' || c == '\u{1680}'
        || (0x2000 <= cv && cv <= 0x200A) || c == '\u{2028}' || c == '\u{2029}' || c == '\u{202F}'
        || c == '\u{205F}' || c == '\u{3000}'
}

/// Splits a comma-separated list of size tokens and reads each one.  Returns
/// the sizes in input order, or the first token that is not an unsigned
/// integer; an unparsable token is a fatal input error, never skipped.
pub fn parse_custom_sizes(sizes_str: &str) -> (result: Result<Vec<u32>, SizeParseError>)
    ensures
        result is Ok <==> all_tokens_valid(sizes_str@),
        result matches Ok(sizes) ==> sizes@ == parsed_sizes(sizes_str@),
        result matches Err(e) ==> e.token@ == split_tokens(
            sizes_str@,
        )[first_invalid(split_tokens(sizes_str@))],
{
    parse_suffix(sizes_str)
}

fn parse_suffix(s: &str) -> (result: Result<Vec<u32>, SizeParseError>)
    ensures
        result is Ok <==> all_tokens_valid(s@),
        result matches Ok(sizes) ==> sizes@ == parsed_sizes(s@),
        result matches Err(e) ==> e.token@ == split_tokens(s@)[first_invalid(split_tokens(s@))],
    decreases s@.len(),
{
    let n = s.unicode_len();
    let mut e: usize = 0;
    while e < n && s.get_char(e) != ','
        invariant
            0 <= e <= n,
            n == s@.len(),
            forall|j: int| 0 <= j < e ==> s@[j] != ',',
        decreases n - e,
    {
        e = e + 1;
    }
    proof {
        lemma_token_end_from_scan(s@, e as int);
    }
    let tok = s.substring_char(0, e);
    proof {
        assert(tok@ =~= s@.take(e as int));
    }
    let ghost toks = split_tokens(s@);
    match parse_one_token(tok) {
        None => {
            proof {
                if e < n {
                    assert(toks == seq![s@.take(e as int)] + split_tokens(s@.skip(e as int + 1)));
                } else {
                    assert(s@.take(e as int) =~= s@);
                }
                assert(toks[0] == tok@);
                assert(first_invalid(toks) == 0);
            }
            Err(SizeParseError { token: String::from_str(tok) })
        },
        Some(v) => {
            if e == n {
                proof {
                    assert(s@.take(e as int) =~= s@);
                    assert(toks =~= seq![s@]);
                    assert(toks[0] == tok@);
                }
                let mut out: Vec<u32> = Vec::new();
                out.push(v);
                proof {
                    assert(out@ =~= parsed_sizes(s@));
                }
                Ok(out)
            } else {
                let rest = s.substring_char(e + 1, n);
                let ghost rtoks = split_tokens(rest@);
                proof {
                    assert(rest@ =~= s@.skip(e as int + 1));
                    assert(toks == seq![tok@] + rtoks);
                    assert(toks.len() == 1 + rtoks.len());
                    assert(toks[0] == tok@);
                    assert(forall|k: int| 0 <= k < rtoks.len() ==> toks[k + 1] == #[trigger] rtoks[k]);
                    assert(toks.drop_first() =~= rtoks);
                }
                match parse_suffix(rest) {
                    Ok(tail) => {
                        proof {
                            assert(forall|k: int|
                                0 <= k < toks.len() ==> token_value(#[trigger] toks[k]) is Some)
                                by {
                                assert(forall|k: int|
                                    1 <= k < toks.len() ==> toks[k] == #[trigger] rtoks[k - 1]);
                            }
                        }
                        let mut out: Vec<u32> = Vec::new();
                        out.push(v);
                        let mut tail = tail;
                        out.append(&mut tail);
                        proof {
                            assert(out@ =~= parsed_sizes(s@));
                        }
                        Ok(out)
                    },
                    Err(err) => {
                        proof {
                            assert(!all_tokens_valid(rest@));
                            assert(exists|i: int|
                                0 <= i < rtoks.len() && token_value(#[trigger] rtoks[i]) is None);
                            lemma_first_invalid_in_range(rtoks);
                            let k = first_invalid(rtoks);
                            assert(first_invalid(toks) == 1 + k);
                            assert(toks[k + 1] == rtoks[k]);
                            assert(!all_tokens_valid(s@)) by {
                                assert(token_value(toks[k + 1]) is None);
                            }
                        }
                        Err(err)
                    },
                }
            }
        },
    }
}

} // verus!
