use vstd::prelude::*;
use vstd::utf8::{
    decode_utf8, decode_utf8_encode_utf8, decode_utf8_split, encode_scalar, encode_utf8, encode_utf8_first_scalar, is_char_boundary,
    pop_first_scalar, valid_utf8_split,
};
use vstd::arithmetic::power2::{pow2, lemma_pow2_adds, lemma_pow2_pos, lemma_pow2_strictly_increases, lemma2_to64};
use vstd::arithmetic::div_mod::{lemma_fundamental_div_mod, lemma_div_denominator, lemma_div_is_ordered_by_denominator};

verus! {

/// Unicode `White_Space` property, the set that `char::is_whitespace` tests.
pub open spec fn is_ws(c: char) -> bool {
    let u = c as u32;
    ||| 0x09 <= u <= 0x0D
    ||| u == 0x20
    ||| u == 0x85
    ||| u == 0xA0
    ||| u == 0x1680
    ||| 0x2000 <= u <= 0x200A
    ||| u == 0x2028
    ||| u == 0x2029
    ||| u == 0x202F
    ||| u == 0x205F
    ||| u == 0x3000
}

/// `char::is_whitespace`: true exactly for the characters with the Unicode
/// `White_Space` property, as its documentation says.
#[verifier::external_body]
pub(crate) fn char_is_whitespace(c: char) -> (r: bool)
    ensures
        r == is_ws(c),
{
    c.is_whitespace()
}

/// `String::push`: appends one character at the end.
#[verifier::external_body]
pub(crate) fn push_char(s: &mut String, c: char)
    ensures
        final(s)@ == old(s)@.push(c),
{
    s.push(c)
}

/// Number of maximal runs of non-whitespace characters in `s`
/// (what `str::split_whitespace().count()` yields).
pub open spec fn word_count(s: Seq<char>) -> nat
    decreases s.len(),
{
    if s.len() == 0 {
        0
    } else {
        let starts = !is_ws(s.last()) && (s.len() == 1 || is_ws(s[s.len() - 2]));
        word_count(s.drop_last()) + if starts { 1nat } else { 0nat }
    }
}

pub fn count_words(s: &str) -> (n: usize)
    ensures
        n == word_count(s@),
{
    length_bounds(s);
    let mut n: usize = 0;
    let mut prev_ws = true;
    for c in it: s.chars()
        invariant
            it.seq() == s@,
            s@.len() <= usize::MAX,
            n == word_count(s@.take(it.index())),
            n <= it.index(),
            prev_ws == (it.index() == 0 || is_ws(s@[it.index() - 1])),
    {
        let ws = char_is_whitespace(c);
        proof {
            let i = it.index();
            assert(s@.take(i + 1).drop_last() =~= s@.take(i));
        }
        if !ws && prev_ws {
            n = n + 1;
        }
        prev_ws = ws;
    }
    proof {
        assert(s@.take(s@.len() as int) =~= s@);
    }
    n
}


/// Number of `'\n'` characters in `s`.
pub open spec fn newline_count(s: Seq<char>) -> nat
    decreases s.len(),
{
    if s.len() == 0 {
        0
    } else {
        newline_count(s.drop_last()) + if s.last() == '\n' { 1nat } else { 0nat }
    }
}

/// Number of lines of `s` as `str::lines` splits it: every `'\n'` ends a
/// line, and a last line without a final line ending counts too.
pub open spec fn line_count(s: Seq<char>) -> nat {
    newline_count(s) + if s.len() > 0 && s.last() != '\n' { 1nat } else { 0nat }
}

pub fn count_lines(s: &str) -> (n: usize)
    ensures
        n == line_count(s@),
{
    length_bounds(s);
    let mut nl: usize = 0;
    let mut last_is_nl = true;
    for c in it: s.chars()
        invariant
            it.seq() == s@,
            s@.len() <= usize::MAX,
            nl == newline_count(s@.take(it.index())),
            nl + (if last_is_nl { 0int } else { 1int }) <= it.index(),
            it.index() == 0 ==> last_is_nl,
            it.index() > 0 ==> last_is_nl == (s@[it.index() - 1] == '\n'),
    {
        proof {
            let i = it.index();
            assert(s@.take(i + 1).drop_last() =~= s@.take(i));
        }
        if c == '\n' {
            nl = nl + 1;
            last_is_nl = true;
        } else {
            last_is_nl = false;
        }
    }
    proof {
        assert(s@.take(s@.len() as int) =~= s@);
    }
    if last_is_nl {
        nl
    } else {
        nl + 1
    }
}


/// Bits beyond the 24 significant bits of an `f32` that `n` needs: the
/// number of halvings that bring `n` below `2^24`.
pub open spec fn extra_bits(n: nat) -> nat
    decreases n,
{
    if n < 0x100_0000 {
        0
    } else {
        1 + extra_bits(n / 2)
    }
}

/// The natural number `n` rounded to the nearest value with 24 significant
/// bits, ties to an even significand: IEEE-754 single precision rounding.
pub open spec fn round_to_f32(n: nat) -> nat {
    if n < 0x100_0000 {
        n
    } else {
        let p = pow2(extra_bits(n));
        let q = n / p;
        let r = n % p;
        let h = p / 2;
        (if r > h || (r == h && q % 2 == 1) { q + 1 } else { q }) * p
    }
}

/// `(w as f32 * 1.3f32) as usize`: the `f32` nearest to 1.3 is
/// `10905190 / 2^23`, the product is rounded once more to `f32`, and the
/// conversion back truncates and saturates at `usize::MAX`.
pub open spec fn scaled_word_count(w: nat) -> nat {
    let prod = round_to_f32(round_to_f32(w) * 10905190) / 0x80_0000;
    if prod > usize::MAX {
        usize::MAX as nat
    } else {
        prod
    }
}

/// The token estimate of a text: 1.3 tokens per word (in `f32` arithmetic)
/// plus 4 tokens per line.
pub open spec fn token_estimate(s: Seq<char>) -> nat {
    scaled_word_count(word_count(s)) + 4 * line_count(s)
}

/// An empty text costs nothing; any other text has at least one line, and
/// so costs at least 4 tokens.
pub proof fn lemma_token_estimate_floor(s: Seq<char>)
    ensures
        s.len() == 0 ==> token_estimate(s) == 0,
        s.len() > 0 ==> line_count(s) >= 1 && token_estimate(s) >= 4,
{
    if s.len() > 0 && s.last() == '\n' {
        assert(newline_count(s) >= 1);
    }
    if s.len() == 0 {
        assert(round_to_f32(0) == 0);
        assert(scaled_word_count(0) == 0);
    }
}

proof fn lemma_word_count_le(s: Seq<char>)
    ensures
        word_count(s) <= s.len(),
    decreases s.len(),
{
    if s.len() > 0 {
        lemma_word_count_le(s.drop_last());
    }
}

proof fn lemma_line_count_le(s: Seq<char>)
    ensures
        newline_count(s) <= s.len(),
        line_count(s) <= s.len(),
    decreases s.len(),
{
    if s.len() > 0 {
        lemma_line_count_le(s.drop_last());
    }
}

proof fn lemma_extra_bits_pow(n: nat)
    requires
        n >= 0x100_0000,
    ensures
        1 <= pow2(extra_bits(n)) <= n,
    decreases n,
{
    lemma2_to64();
    let h = n / 2;
    if h < 0x100_0000 {
        assert(extra_bits(n) == 1 + extra_bits(h));
        assert(extra_bits(h) == 0);
    } else {
        lemma_extra_bits_pow(h);
        lemma_pow2_step(extra_bits(h));
    }
}

proof fn lemma_round_le_double(n: nat)
    ensures
        round_to_f32(n) <= 2 * n,
{
    if n >= 0x100_0000 {
        lemma_extra_bits_pow(n);
        let p = pow2(extra_bits(n));
        let q = n / p;
        lemma_fundamental_div_mod(n as int, p as int);
        assert(q * p <= n) by (nonlinear_arith)
            requires
                p * q + n % p == n,
                n % p >= 0,
        ;
        assert((q + 1) * p <= 2 * n) by (nonlinear_arith)
            requires
                q * p <= n,
                p <= n,
        ;
    }
}

/// The token estimate grows at most linearly: it never exceeds ten tokens
/// per character of the text.
pub proof fn lemma_token_estimate_bound(s: Seq<char>)
    ensures
        token_estimate(s) <= 10 * s.len(),
{
    let w = word_count(s);
    lemma_word_count_le(s);
    lemma_line_count_le(s);
    lemma_round_le_double(w);
    let a = round_to_f32(w);
    lemma_round_le_double(a * 10905190);
    let b = round_to_f32(a * 10905190);
    assert(b / 0x80_0000 <= 6 * w) by (nonlinear_arith)
        requires
            b <= 2 * (a * 10905190),
            a <= 2 * w,
    ;
}

proof fn lemma_extra_bits_quotient(n: nat)
    requires
        n >= 0x100_0000,
    ensures
        n / pow2(extra_bits(n)) >= 0x80_0000,
        n / pow2(extra_bits(n)) < 0x100_0000,
        pow2(extra_bits(n)) >= 2,
        pow2(extra_bits(n)) % 2 == 0,
    decreases n,
{
    lemma2_to64();
    let h = n / 2;
    if h < 0x100_0000 {
        assert(extra_bits(n) == 1 + extra_bits(h));
        assert(extra_bits(h) == 0);
        lemma_pow2_step(0);
    } else {
        lemma_extra_bits_quotient(h);
        let e = extra_bits(h);
        lemma_pow2_step(e);
        lemma_div_denominator(n as int, 2, pow2(e) as int);
        assert(n / pow2(extra_bits(n)) == (n / 2) / pow2(e));
    }
}


/// The spacing of the values that `round_to_f32` gives near `n`.
spec fn grid(n: nat) -> nat {
    if n < 0x100_0000 {
        1
    } else {
        pow2(extra_bits(n))
    }
}

proof fn lemma_extra_bits_mono(n: nat, m: nat)
    requires
        n <= m,
    ensures
        extra_bits(n) <= extra_bits(m),
    decreases m,
{
    if n >= 0x100_0000 {
        lemma_extra_bits_mono(n / 2, m / 2);
    }
}

/// `round_to_f32(n)` is a multiple of the grid, at most half a grid step
/// from `n`; above 2^24 the grid step is between n / 2^24 and n / 2^23.
proof fn lemma_round_grid(n: nat) -> (j: nat)
    ensures
        round_to_f32(n) == j * grid(n),
        2 * round_to_f32(n) + grid(n) >= 2 * n,
        2 * round_to_f32(n) <= 2 * n + grid(n),
        grid(n) >= 1,
        n >= 0x100_0000 ==> grid(n) * 0x80_0000 <= n < grid(n) * 0x100_0000,
{
    if n < 0x100_0000 {
        n
    } else {
        lemma_extra_bits_quotient(n);
        let p = pow2(extra_bits(n));
        let q = n / p;
        let r = n % p;
        let h = p / 2;
        lemma_fundamental_div_mod(n as int, p as int);
        assert(p * 0x80_0000 <= n < p * 0x100_0000) by (nonlinear_arith)
            requires
                q >= 0x80_0000,
                q < 0x100_0000,
                p * q + r == n,
                0 <= r < p,
        ;
        assert(h * 2 == p);
        if r > h || (r == h && q % 2 == 1) {
            assert((q + 1) * p == n + (p - r)) by (nonlinear_arith)
                requires
                    p * q + r == n,
            ;
            q + 1
        } else {
            assert(q * p + r == n) by (nonlinear_arith)
                requires
                    p * q + r == n,
            ;
            q
        }
    }
}

proof fn lemma_step_in_grid(d: int, m: int, p: int, low: int)
    requires
        d == m * p,
        d >= low,
        (p == 0x20_0000 && low > 3 * 0x20_0000) || (p == 0x40_0000 && low > 0x40_0000) || (p == 0x80_0000
            && low > 0),
    ensures
        d >= 0x80_0000,
{
    if p == 0x20_0000 {
        assert(m >= 4) by (nonlinear_arith)
            requires
                m * 0x20_0000 > 3 * 0x20_0000,
        ;
        assert(d >= 0x80_0000) by (nonlinear_arith)
            requires
                d == m * p,
                m >= 4,
                p == 0x20_0000,
        ;
    } else if p == 0x40_0000 {
        assert(m >= 2) by (nonlinear_arith)
            requires
                m * 0x40_0000 > 0x40_0000,
        ;
        assert(d >= 0x80_0000) by (nonlinear_arith)
            requires
                d == m * p,
                m >= 2,
                p == 0x40_0000,
        ;
    } else {
        assert(m >= 1) by (nonlinear_arith)
            requires
                m * 0x80_0000 > 0,
        ;
        assert(d >= 0x80_0000) by (nonlinear_arith)
            requires
                d == m * p,
                m >= 1,
                p == 0x80_0000,
        ;
    }
}

/// Above the grid's first step, the grid of a larger value is the grid of
/// the smaller one times a power of two.
proof fn lemma_grid_mono(x: nat, y: nat) -> (t: nat)
    requires
        x <= y,
    ensures
        grid(y) == grid(x) * t,
        t >= 1,
{
    lemma2_to64();
    if y < 0x100_0000 {
        1
    } else if x < 0x100_0000 {
        lemma_pow2_pos(extra_bits(y));
        grid(y)
    } else {
        lemma_extra_bits_mono(x, y);
        let e = (extra_bits(y) - extra_bits(x)) as nat;
        lemma_pow2_adds(extra_bits(x), e);
        lemma_pow2_pos(e);
        pow2(e)
    }
}

/// Below 2^47 the grid is at most 2^21, or exactly 2^22 or 2^23.
proof fn lemma_grid_cap(y: nat)
    requires
        y < 0x8000_0000_0000,
    ensures
        grid(y) <= 0x20_0000 || grid(y) == 0x40_0000 || grid(y) == 0x80_0000,
{
    lemma2_to64();
    if y >= 0x100_0000 {
        let j = lemma_round_grid(y);
        let k = extra_bits(y);
        if k >= 24 {
            if k > 24 {
                lemma_pow2_strictly_increases(24, k);
            }
            assert(false) by (nonlinear_arith)
                requires
                    grid(y) * 0x80_0000 <= y,
                    y < 0x8000_0000_0000,
                    grid(y) >= 0x100_0000,
            ;
        } else if k < 21 {
            lemma_pow2_strictly_increases(k, 21);
        }
    }
}

/// Near the top, a value `C` below `y` lies on a grid at most twice finer.
proof fn lemma_grid_near(x: nat, y: nat)
    requires
        y == x + 10905190,
        grid(y) >= 0x40_0000,
    ensures
        x >= 0x100_0000,
        2 * grid(x) >= grid(y),
{
    lemma2_to64();
    let jy = lemma_round_grid(y);
    assert(y >= 0x100_0000);
    assert(x >= 0x100_0000) by (nonlinear_arith)
        requires
            grid(y) * 0x80_0000 <= y,
            grid(y) >= 0x40_0000,
            y == x + 10905190,
    ;
    let jx = lemma_round_grid(x);
    let k = extra_bits(x);
    let k2 = extra_bits(y);
    lemma_extra_bits_mono(x, y);
    if k + 1 < k2 {
        lemma_pow2_strictly_increases(k, (k2 - 1) as nat);
        lemma_pow2_step((k2 - 1) as nat);
        assert(false) by (nonlinear_arith)
            requires
                grid(x) + 1 <= pow2((k2 - 1) as nat),
                grid(y) == 2 * pow2((k2 - 1) as nat),
                x < grid(x) * 0x100_0000,
                grid(y) * 0x80_0000 <= y,
                y == x + 10905190,
        ;
    } else if k + 1 == k2 {
        lemma_pow2_step(k);
    } else {
        assert(k == k2);
    }
}

/// One word more raises the scaled word count by at least one while the
/// product `words * 1.3` stays below 2^24, where `f32` steps are at most 1
/// (beyond, rounding can swallow a word: 12905551 and 12905552 words give
/// the same count).
proof fn lemma_scaled_step(w: nat)
    requires
        (w + 1) * 10905190 < 0x8000_0000_0000,
    ensures
        scaled_word_count(w + 1) >= scaled_word_count(w) + 1,
{
    let c: nat = 10905190;
    assert(w + 1 < 0x100_0000) by (nonlinear_arith)
        requires
            (w + 1) * 10905190 < 0x8000_0000_0000,
    ;
    assert(round_to_f32(w) == w);
    assert(round_to_f32(w + 1) == w + 1);
    let x = w * c;
    let y = (w + 1) * c;
    assert(y == x + c) by (nonlinear_arith)
        requires
            x == w * c,
            y == (w + 1) * c,
    ;
    let rx = round_to_f32(x);
    let ry = round_to_f32(y);
    assert(ry >= rx + 0x80_0000) by {
        let j = lemma_round_grid(x);
        let j2 = lemma_round_grid(y);
        let t = lemma_grid_mono(x, y);
        lemma_grid_cap(y);
        let p = grid(x);
        let p2 = grid(y);
        if p2 >= 0x40_0000 {
            lemma_grid_near(x, y);
            let d: int = ry - rx;
            assert(d == (j2 * t - j) * p) by (nonlinear_arith)
                requires
                    ry == j2 * p2,
                    rx == j * p,
                    p2 == p * t,
                    d == ry - rx,
            ;
            if p2 == 0x40_0000 {
                assert(p == 0x20_0000 || p == 0x40_0000) by (nonlinear_arith)
                    requires
                        p2 == p * t,
                        2 * p >= p2,
                        t >= 1,
                        p2 == 0x40_0000,
                ;
            } else {
                assert(p == 0x40_0000 || p == 0x80_0000) by (nonlinear_arith)
                    requires
                        p2 == p * t,
                        2 * p >= p2,
                        t >= 1,
                        p2 == 0x80_0000,
                ;
            }
            let low: int = (2 * c - p - p2) / 2;
            assert(d >= low);
            lemma_step_in_grid(d, j2 * t - j, p as int, low);
        } else {
            assert(p <= p2) by (nonlinear_arith)
                requires
                    p2 == p * t,
                    t >= 1,
                    p >= 1,
            ;
        }
    }
    assert(ry / 0x80_0000 >= rx / 0x80_0000 + 1) by (nonlinear_arith)
        requires
            ry >= rx + 0x80_0000,
    ;
    lemma_round_le_double(y);
}

/// Appending a word on the same line (" x") raises the token estimate while
/// the words times 1.3 stay below 2^24 (about 12.9 million words); and the
/// estimate depends only on the word and line counts.
pub proof fn lemma_token_estimate_monotone(s: Seq<char>, t: Seq<char>)
    ensures
        (word_count(s) + 1) * 10905190 < 0x8000_0000_0000 ==> token_estimate(s + seq![' ', 'x'])
            > token_estimate(s),
        word_count(s) == word_count(t) && line_count(s) == line_count(t) ==> token_estimate(s)
            == token_estimate(t),
{
    let s1 = s.push(' ');
    let s2 = s1.push('x');
    assert(s + seq![' ', 'x'] =~= s2);
    assert(s2.drop_last() =~= s1);
    assert(s1.drop_last() =~= s);
    assert(word_count(s1) == word_count(s));
    assert(word_count(s2) == word_count(s) + 1);
    assert(newline_count(s1) == newline_count(s));
    assert(newline_count(s2) == newline_count(s));
    assert(line_count(s2) >= line_count(s));
    if (word_count(s) + 1) * 10905190 < 0x8000_0000_0000 {
        lemma_scaled_step(word_count(s));
    }
}

proof fn lemma_pow2_step(k: nat)
    ensures
        pow2(k + 1) == 2 * pow2(k),
        pow2(k) >= 1,
{
    lemma_pow2_adds(k, 1);
    lemma2_to64();
    lemma_pow2_pos(k);
}

fn round_to_f32_exec(n: u128) -> (r: u128)
    requires
        n < 0x1_0000_0000_0000_0000_0000_0000_0000,
    ensures
        r == round_to_f32(n as nat),
        r <= 2 * n,
{
    if n < 0x100_0000 {
        return n;
    }
    let mut p: u128 = 1;
    let ghost mut k: nat = 0;
    proof {
        lemma2_to64();
    }
    while n / p >= 0x100_0000
        invariant
            p == pow2(k),
            p >= 1,
            p <= n,
            n >= 0x100_0000,
            n < 0x1_0000_0000_0000_0000_0000_0000_0000,
            extra_bits(n as nat) == k + extra_bits((n / p) as nat),
        decreases n / p,
    {
        assert(p * 0x100_0000 <= n) by (nonlinear_arith)
            requires
                n / p >= 0x100_0000,
                p >= 1,
        {
            lemma_fundamental_div_mod(n as int, p as int);
        }
        proof {
            let ni = n as int;
            let pi = p as int;
            lemma_div_denominator(ni, pi, 2);
            lemma_pow2_step(k);
            lemma_div_is_ordered_by_denominator(ni, pi, pi * 2);
            assert(ni / (pi * 2) < ni / pi) by (nonlinear_arith)
                requires
                    ni / pi >= 0x100_0000,
                    ni / (pi * 2) == (ni / pi) / 2,
            ;
        }
        p = p * 2;
        proof {
            k = k + 1;
        }
    }
    assert(extra_bits((n / p) as nat) == 0);
    let q = n / p;
    let rem = n % p;
    let h = p / 2;
    let q2 = if rem > h || (rem == h && q % 2 == 1) {
        q + 1
    } else {
        q
    };
    assert(p * q <= n) by {
        lemma_fundamental_div_mod(n as int, p as int);
    }
    assert(q2 * p <= 2 * n) by (nonlinear_arith)
        requires
            q2 <= q + 1,
            p * q <= n,
            p <= n,
    {
    }
    q2 * p
}


/// `(w as f32 * 1.3) as usize`, computed exactly in integer arithmetic.
pub fn scale_word_count(w: usize) -> (r: usize)
    ensures
        r == scaled_word_count(w as nat),
{
    let a = round_to_f32_exec(w as u128);
    assert(a * 10905190 <= 2 * 0x1_0000_0000_0000_0000 * 10905190) by (nonlinear_arith)
        requires
            a <= 2 * (w as u128),
            w <= usize::MAX,
            usize::MAX < 0x1_0000_0000_0000_0000,
    ;
    let b = round_to_f32_exec(a * 10905190);
    let q = b / 0x80_0000;
    if q > usize::MAX as u128 {
        usize::MAX
    } else {
        q as usize
    }
}


/// What `char::to_uppercase` yields for `c` (Unicode case tables).
pub uninterp spec fn uppercase(c: char) -> Seq<char>;

/// The ASCII uppercase of an ASCII character: `a`..`z` become `A`..`Z`,
/// every other character stays.
pub open spec fn ascii_upper(c: char) -> char {
    if 'a' <= c <= 'z' {
        ((c as u32) - 32) as char
    } else {
        c
    }
}

/// `char::to_uppercase`, collected into a `String`: the uppercase mapping of
/// `c`, one or more characters; an ASCII character maps to its ASCII
/// uppercase (a lowercase letter to its capital, anything else to itself).
#[verifier::external_body]
pub(crate) fn char_to_uppercase(c: char) -> (r: String)
    ensures
        r@ == uppercase(c),
        r@.len() >= 1,
        (c as u32) < 0x80 ==> r@ == seq![ascii_upper(c)],
{
    c.to_uppercase().collect::<String>()
}

/// Capitalizing a text that starts with an ASCII character keeps its
/// length, starts it with an ASCII character again, and capitalizing the
/// result changes nothing more.
pub proof fn lemma_capitalize_ascii(s: Seq<char>)
    requires
        s.len() > 0,
        (s[0] as u32) < 0x80,
    ensures
        ({
            let t = seq![ascii_upper(s[0])] + s.drop_first();
            &&& t.len() == s.len()
            &&& (t[0] as u32) < 0x80
            &&& seq![ascii_upper(t[0])] + t.drop_first() == t
        }),
{
    let t = seq![ascii_upper(s[0])] + s.drop_first();
    assert(t[0] == ascii_upper(s[0]));
    assert(t.drop_first() =~= s.drop_first());
    assert(ascii_upper(ascii_upper(s[0])) == ascii_upper(s[0]));
    assert(seq![ascii_upper(t[0])] + t.drop_first() =~= t);
}

/// `s` without its leading whitespace.
pub open spec fn trim_start(s: Seq<char>) -> Seq<char>
    decreases s.len(),
{
    if s.len() > 0 && is_ws(s[0]) {
        trim_start(s.drop_first())
    } else {
        s
    }
}

/// `s` without its trailing whitespace.
pub open spec fn trim_end(s: Seq<char>) -> Seq<char>
    decreases s.len(),
{
    if s.len() > 0 && is_ws(s.last()) {
        trim_end(s.drop_last())
    } else {
        s
    }
}

/// `s` without leading and trailing whitespace.
pub open spec fn trimmed(s: Seq<char>) -> Seq<char> {
    trim_end(trim_start(s))
}

/// `str::trim`: the slice without leading and trailing whitespace, where
/// whitespace is the Unicode `White_Space` property, as its documentation
/// says.
#[verifier::external_body]
pub(crate) fn str_trim(s: &str) -> (r: &str)
    ensures
        r@ == trimmed(s@),
{
    s.trim()
}

/// `==` on `str`: the two slices hold the same characters.
#[verifier::external_body]
pub(crate) fn str_eq(a: &str, b: &str) -> (r: bool)
    ensures
        r == (a@ == b@),
{
    a == b
}


/// `str::starts_with` with a `&str` pattern: `p` is a prefix of `s`.
#[verifier::external_body]
pub(crate) fn str_starts_with(s: &str, p: &str) -> (r: bool)
    ensures
        r == (p@.len() <= s@.len() && s@.subrange(0, p@.len() as int) == p@),
{
    s.starts_with(p)
}

/// Length in bytes of the UTF-8 encoding of `s` (what `len` gives).
pub open spec fn blen(s: Seq<char>) -> nat {
    encode_utf8(s).len()
}

pub proof fn lemma_encode_concat(a: Seq<char>, b: Seq<char>)
    ensures
        encode_utf8(a + b) == encode_utf8(a) + encode_utf8(b),
    decreases a.len(),
{
    if a.len() == 0 {
        assert(a + b =~= b);
        assert(encode_utf8(a) =~= Seq::<u8>::empty());
        assert(encode_utf8(a) + encode_utf8(b) =~= encode_utf8(b));
    } else {
        assert((a + b).drop_first() =~= a.drop_first() + b);
        assert((a + b)[0] == a[0]);
        lemma_encode_concat(a.drop_first(), b);
        assert(encode_utf8(a + b) =~= encode_utf8(a) + encode_utf8(b));
    }
}

/// Bytes that the UTF-8 encoding of `c` takes.
pub open spec fn char_width(c: char) -> nat {
    encode_scalar(c as u32).len()
}

pub proof fn lemma_blen_push(s: Seq<char>, c: char)
    ensures
        blen(s.push(c)) == blen(s) + char_width(c),
        1 <= char_width(c) <= 4,
{
    lemma_encode_concat(s, seq![c]);
    assert(s.push(c) =~= s + seq![c]);
    assert(seq![c].drop_first() =~= Seq::<char>::empty());
    assert(encode_utf8(Seq::<char>::empty()) =~= Seq::<u8>::empty());
    assert(encode_utf8(seq![c]) =~= encode_scalar(c as u32) + encode_utf8(Seq::<char>::empty()));
    assert(encode_utf8(seq![c]) =~= encode_scalar(c as u32));
}

pub proof fn lemma_blen_concat(a: Seq<char>, b: Seq<char>)
    ensures
        blen(a + b) == blen(a) + blen(b),
{
    lemma_encode_concat(a, b);
}

proof fn lemma_len_le_blen(s: Seq<char>)
    ensures
        s.len() <= blen(s),
    decreases s.len(),
{
    if s.len() > 0 {
        lemma_len_le_blen(s.drop_last());
        lemma_blen_push(s.drop_last(), s.last());
        assert(s.drop_last().push(s.last()) =~= s);
    }
}

/// A text's length in bytes fits a `usize`, and it has no more characters
/// than bytes.
pub(crate) fn length_bounds(s: &str)
    ensures
        s@.len() <= blen(s@),
        blen(s@) <= usize::MAX,
{
    let bytes = s.as_bytes();
    let _n = bytes.len();
    proof {
        lemma_len_le_blen(s@);
    }
}

/// An ASCII text takes one byte per character.
pub proof fn lemma_ascii_blen(t: Seq<char>)
    requires
        forall|i: int| 0 <= i < t.len() ==> (#[trigger] t[i] as u32) < 0x80,
    ensures
        blen(t) == t.len(),
    decreases t.len(),
{
    if t.len() > 0 {
        let p = t.drop_last();
        assert forall|i: int| 0 <= i < p.len() implies (#[trigger] p[i] as u32) < 0x80 by {
            assert(p[i] == t[i]);
        }
        lemma_ascii_blen(p);
        lemma_blen_push(p, t.last());
        assert(p.push(t.last()) =~= t);
        assert((t[t.len() - 1] as u32) < 0x80);
    } else {
        assert(encode_utf8(t) =~= Seq::<u8>::empty());
    }
}

/// `c.len_utf8()`, computed from the code point.
pub fn utf8_width(c: char) -> (n: u128)
    ensures
        n == char_width(c),
        1 <= n <= 4,
{
    let u = c as u32;
    proof {
        vstd::utf8::char_is_scalar(c);
    }
    if u <= 0x7F {
        1
    } else if u <= 0x7FF {
        2
    } else if u <= 0xFFFF {
        3
    } else {
        4
    }
}

/// The decimal digit character for `d < 10`.
pub open spec fn digit_char(d: nat) -> char {
    (('0' as u32) + d) as char
}

/// The decimal text of `n`, without leading zeros (`0` for zero).
pub open spec fn decimal(n: nat) -> Seq<char>
    decreases n,
{
    if n < 10 {
        seq![digit_char(n)]
    } else {
        decimal(n / 10).push(digit_char(n % 10))
    }
}

/// Appends the decimal text of `n` (as `{}` formats a `usize`).
pub fn push_decimal(out: &mut String, n: usize)
    ensures
        final(out)@ == old(out)@ + decimal(n as nat),
    decreases n,
{
    if n >= 10 {
        push_decimal(out, n / 10);
    }
    let d = (n % 10) as u32;
    let c = char_from_digit(d);
    push_char(out, c);
    proof {
        if n >= 10 {
            assert(final(out)@ =~= old(out)@ + decimal(n as nat));
        } else {
            assert(final(out)@ =~= old(out)@ + decimal(n as nat));
        }
    }
}

fn char_from_digit(d: u32) -> (c: char)
    requires
        d < 10,
    ensures
        c == digit_char(d as nat),
{
    if d == 0 { '0' } else if d == 1 { '1' } else if d == 2 { '2' } else if d == 3 { '3' } else if d == 4 {
        '4'
    } else if d == 5 { '5' } else if d == 6 { '6' } else if d == 7 { '7' } else if d == 8 { '8' } else {
        '9'
    }
}

/// Index of the character that starts at byte `b` of the UTF-8 encoding of
/// `s`: the number of characters in the bytes before it.
pub open spec fn char_index_at(s: Seq<char>, b: int) -> int {
    decode_utf8(encode_utf8(s).subrange(0, b)).len() as int
}

/// Whether byte offset `b` starts a character of `s`, or is its end.
pub open spec fn on_boundary(s: Seq<char>, b: int) -> bool {
    is_char_boundary(encode_utf8(s), b)
}

/// The end of a prefix is a character boundary of the whole, and the
/// characters before it are the prefix.
pub proof fn lemma_prefix_boundary(a: Seq<char>, b: Seq<char>)
    ensures
        on_boundary(a + b, blen(a) as int),
        char_index_at(a + b, blen(a) as int) == a.len(),
        blen(a) <= blen(a + b),
    decreases a.len(),
{
    broadcast use vstd::utf8::encode_utf8_valid_utf8, vstd::utf8::encode_utf8_decode_utf8;

    lemma_encode_concat(a, b);
    assert(encode_utf8(a + b).subrange(0, blen(a) as int) =~= encode_utf8(a));
    if a.len() == 0 {
        assert(a + b =~= b);
    } else {
        let s = a + b;
        assert(s.drop_first() =~= a.drop_first() + b);
        assert(s[0] == a[0]);
        encode_utf8_first_scalar(s);
        let e = encode_utf8(s);
        let w = encode_scalar(s[0] as u32).len();
        assert(e =~= encode_scalar(s[0] as u32) + encode_utf8(s.drop_first()));
        assert(pop_first_scalar(e) =~= encode_utf8(s.drop_first()));
        assert(encode_utf8(a) =~= encode_scalar(a[0] as u32) + encode_utf8(a.drop_first()));
        lemma_prefix_boundary(a.drop_first(), b);
    }
}

/// At a character boundary `p`, the characters before it take exactly `p`
/// bytes.
pub proof fn lemma_boundary_split(s: Seq<char>, p: int)
    requires
        on_boundary(s, p),
    ensures
        0 <= char_index_at(s, p) <= s.len(),
        blen(s.take(char_index_at(s, p))) == p,
        0 <= p <= blen(s),
{
    broadcast use vstd::utf8::encode_utf8_valid_utf8, vstd::utf8::encode_utf8_decode_utf8;

    let e = encode_utf8(s);
    reveal_with_fuel(is_char_boundary, 1);
    assert(0 <= p <= e.len()) by {
        if p != 0 {
            assert(!(p < 0 || e.len() < p));
        }
    }
    valid_utf8_split(e, p);
    decode_utf8_split(e, p);
    decode_utf8_encode_utf8(e.subrange(0, p));
    let l = decode_utf8(e.subrange(0, p));
    assert(s.take(l.len() as int) =~= l);
}

/// `String::insert`: puts `c` in at byte offset `idx`, which must be a
/// character boundary (the method panics otherwise).
#[verifier::external_body]
pub(crate) fn string_insert(s: &mut String, idx: usize, c: char)
    requires
        on_boundary(old(s)@, idx as int),
    ensures
        final(s)@ == old(s)@.insert(char_index_at(old(s)@, idx as int), c),
{
    s.insert(idx, c)
}

/// `String::remove`: takes out and returns the character that starts at
/// byte offset `idx`, which must be a character boundary before the end
/// (the method panics otherwise).
#[verifier::external_body]
pub(crate) fn string_remove(s: &mut String, idx: usize) -> (r: char)
    requires
        on_boundary(old(s)@, idx as int),
        idx < blen(old(s)@),
    ensures
        r == old(s)@[char_index_at(old(s)@, idx as int)],
        final(s)@ == old(s)@.remove(char_index_at(old(s)@, idx as int)),
{
    s.remove(idx)
}

/// The pieces of `s` between its `'\n'` characters (as `split('\n')`
/// gives them); there is always at least one.
pub open spec fn newline_pieces(s: Seq<char>) -> Seq<Seq<char>>
    decreases s.len(),
{
    if s.len() == 0 {
        seq![Seq::empty()]
    } else {
        let p = newline_pieces(s.drop_last());
        if s.last() == '\n' {
            p.push(Seq::empty())
        } else {
            p.drop_last().push(p.last().push(s.last()))
        }
    }
}

/// A line without the `'\r'` of a `"\r\n"` ending.
pub open spec fn strip_cr(p: Seq<char>) -> Seq<char> {
    if p.len() > 0 && p.last() == '\r' {
        p.drop_last()
    } else {
        p
    }
}

/// The lines of `s` as `str::lines` yields them: split at `"\n"` or
/// `"\r\n"`, the final line ending optional.
pub open spec fn text_lines(s: Seq<char>) -> Seq<Seq<char>> {
    let p = newline_pieces(s);
    let done = p.drop_last().map_values(|x: Seq<char>| strip_cr(x));
    if p.last().len() > 0 {
        done.push(p.last())
    } else {
        done
    }
}

proof fn lemma_pieces_nonempty(s: Seq<char>)
    ensures
        newline_pieces(s).len() >= 1,
    decreases s.len(),
{
    if s.len() > 0 {
        lemma_pieces_nonempty(s.drop_last());
    }
}

/// The lines of a text (see `text_lines`).
pub fn split_lines(s: &str) -> (lines: Vec<String>)
    ensures
        lines@.map_values(|l: String| l@) == text_lines(s@),
{
    let mut lines: Vec<String> = Vec::new();
    let mut piece = String::new();
    let mut piece_ends_cr = false;
    assert(s@.take(0) =~= Seq::<char>::empty());
    for c in it: s.chars()
        invariant
            it.seq() == s@,
            newline_pieces(s@.take(it.index())).len() >= 1,
            lines@.map_values(|l: String| l@) == newline_pieces(s@.take(it.index())).drop_last().map_values(
                |x: Seq<char>| strip_cr(x),
            ),
            piece@ == newline_pieces(s@.take(it.index())).last(),
            piece_ends_cr == (piece@.len() > 0 && piece@.last() == '\r'),
    {
        let ghost pre = s@.take(it.index());
        let ghost next = s@.take(it.index() + 1);
        proof {
            assert(next.drop_last() =~= pre);
            assert(next.last() == c);
            lemma_pieces_nonempty(pre);
        }
        if c == '\n' {
            let mut done = String::new();
            std::mem::swap(&mut piece, &mut done);
            if piece_ends_cr {
                string_pop(&mut done);
            }
            let ghost prev = lines@;
            lines.push(done);
            piece_ends_cr = false;
            proof {
                assert(newline_pieces(next) == newline_pieces(pre).push(Seq::<char>::empty()));
                assert(newline_pieces(next).drop_last() =~= newline_pieces(pre));
                assert(newline_pieces(pre) =~= newline_pieces(pre).drop_last().push(newline_pieces(pre).last()));
                assert(lines@.map_values(|l: String| l@) =~= prev.map_values(|l: String| l@).push(
                    strip_cr(newline_pieces(pre).last()),
                ));
                assert(lines@.map_values(|l: String| l@) =~= newline_pieces(next).drop_last().map_values(
                    |x: Seq<char>| strip_cr(x),
                ));
                assert(piece@ =~= Seq::<char>::empty());
            }
        } else {
            push_char(&mut piece, c);
            piece_ends_cr = c == '\r';
            proof {
                assert(newline_pieces(next).drop_last() =~= newline_pieces(pre).drop_last());
            }
        }
    }
    assert(s@.take(s@.len() as int) =~= s@);
    if !piece.as_str().is_empty() {
        let ghost prev = lines@;
        lines.push(piece);
        assert(lines@.map_values(|l: String| l@) =~= prev.map_values(|l: String| l@).push(
            newline_pieces(s@).last(),
        ));
    }
    lines
}

/// `String::pop`: removes and returns the last character, `None` when the
/// string is empty.
#[verifier::external_body]
pub(crate) fn string_pop(s: &mut String) -> (r: Option<char>)
    ensures
        old(s)@.len() == 0 ==> r is None && final(s)@ == old(s)@,
        old(s)@.len() > 0 ==> r == Some(old(s)@.last()) && final(s)@ == old(s)@.drop_last(),
{
    s.pop()
}

} // verus!
