//! Numeric tokens: decimal literals as written in a file, and vertex indices.
use vstd::prelude::*;

verus! {

pub open spec fn is_digit(c: char) -> bool {
    '0' <= c && c <= '9'
}

pub open spec fn digit_of(c: char) -> nat {
    (c as u32 - '0' as u32) as nat
}

/// Value of a string of decimal digits, most significant first.
pub open spec fn digits_value(d: Seq<char>) -> nat
    decreases d.len(),
{
    if d.len() == 0 {
        0
    } else {
        digits_value(d.drop_last()) * 10 + digit_of(d.last())
    }
}

pub open spec fn pow10(n: nat) -> nat
    decreases n,
{
    if n == 0 {
        1
    } else {
        10 * pow10((n - 1) as nat)
    }
}

pub open spec fn all_digits(d: Seq<char>) -> bool {
    forall|i: int| 0 <= i < d.len() ==> is_digit(#[trigger] d[i])
}

/// End of the run of digits that starts at `i`.
pub open spec fn digit_run(s: Seq<char>, i: int) -> int
    decreases s.len() - i,
{
    if 0 <= i < s.len() && is_digit(s[i]) {
        digit_run(s, i + 1)
    } else {
        i
    }
}

pub open spec fn is_sign(c: char) -> bool {
    c == '+' || c == '-'
}

/// Length of the optional leading sign.
pub open spec fn sign_len(s: Seq<char>) -> int {
    if s.len() > 0 && is_sign(s[0]) {
        1
    } else {
        0
    }
}

pub open spec fn is_negative(s: Seq<char>) -> bool {
    s.len() > 0 && s[0] == '-'
}

/// End of the integer digits of a decimal literal.
pub open spec fn int_end(s: Seq<char>) -> int {
    digit_run(s, sign_len(s))
}

pub open spec fn has_point(s: Seq<char>) -> bool {
    int_end(s) < s.len() && s[int_end(s)] == '.'
}

/// End of the fraction digits (the integer digits' end when there is no point).
pub open spec fn frac_end(s: Seq<char>) -> int {
    if has_point(s) {
        digit_run(s, int_end(s) + 1)
    } else {
        int_end(s)
    }
}

pub open spec fn int_digits(s: Seq<char>) -> Seq<char> {
    s.subrange(sign_len(s), int_end(s))
}

pub open spec fn frac_digits(s: Seq<char>) -> Seq<char> {
    if has_point(s) {
        s.subrange(int_end(s) + 1, frac_end(s))
    } else {
        Seq::<char>::empty()
    }
}

/// Start of the exponent's digits, after `e`/`E` and an optional sign.
pub open spec fn exp_digits_start(s: Seq<char>) -> int {
    let j = frac_end(s) + 1;
    if j < s.len() && is_sign(s[j]) {
        j + 1
    } else {
        j
    }
}

pub open spec fn has_exponent(s: Seq<char>) -> bool {
    frac_end(s) < s.len()
}

pub open spec fn exponent_negative(s: Seq<char>) -> bool {
    has_exponent(s) && frac_end(s) + 1 < s.len() && s[frac_end(s) + 1] == '-'
}

pub open spec fn exp_digits(s: Seq<char>) -> Seq<char> {
    if has_exponent(s) {
        s.subrange(exp_digits_start(s), s.len() as int)
    } else {
        Seq::<char>::empty()
    }
}

/// `[+-]? (digits | digits '.' digits? | '.' digits) ([eE] [+-]? digits)?`
pub open spec fn is_decimal_literal(s: Seq<char>) -> bool {
    &&& int_digits(s).len() + frac_digits(s).len() > 0
    &&& has_exponent(s) ==> {
        &&& s[frac_end(s)] == 'e' || s[frac_end(s)] == 'E'
        &&& exp_digits_start(s) < s.len()
        &&& digit_run(s, exp_digits_start(s)) == s.len()
    }
}

pub open spec fn lower(c: char) -> char {
    if 'A' <= c && c <= 'Z' {
        (((c as u8) + 32) as u8) as char
    } else {
        c
    }
}

/// `s`, ASCII upper case letters made lower case.
pub open spec fn lowered(s: Seq<char>) -> Seq<char> {
    s.map_values(|c: char| lower(c))
}

/// `inf`, `infinity` or `nan` in any case, after an optional sign.
pub open spec fn is_special_literal(s: Seq<char>) -> bool {
    let w = lowered(s.skip(sign_len(s)));
    w == seq!['i', 'n', 'f'] || w == seq!['i', 'n', 'f', 'i', 'n', 'i', 't', 'y'] || w == seq![
        'n',
        'a',
        'n',
    ]
}

/// The literals that `str::parse::<f32>` accepts.
pub open spec fn is_float_literal(s: Seq<char>) -> bool {
    is_decimal_literal(s) || is_special_literal(s)
}

/// All digits of a decimal literal, point removed: the value is
/// `mantissa * 10^scale`.
pub open spec fn mantissa(s: Seq<char>) -> nat {
    digits_value(int_digits(s) + frac_digits(s))
}

pub open spec fn scale(s: Seq<char>) -> int {
    let e = digits_value(exp_digits(s)) as int;
    (if exponent_negative(s) {
        -e
    } else {
        e
    }) - frac_digits(s).len()
}

/// `m * 10^k >= 1`.
pub open spec fn scaled_at_least_one(m: nat, k: int) -> bool {
    if k >= 0 {
        m * pow10(k as nat) >= 1
    } else {
        m >= pow10((-k) as nat)
    }
}

/// `m * 10^k <= 1`.
pub open spec fn scaled_at_most_one(m: nat, k: int) -> bool {
    if k >= 0 {
        m * pow10(k as nat) <= 1
    } else {
        m <= pow10((-k) as nat)
    }
}

/// The decimal literal `s` denotes a value in `[0.001, 10]`.
pub open spec fn in_unit_range(s: Seq<char>) -> bool {
    &&& is_decimal_literal(s)
    &&& !is_negative(s)
    &&& scaled_at_least_one(mantissa(s), scale(s) + 3)
    &&& scaled_at_most_one(mantissa(s), scale(s) - 1)
}

/// The digits of an index literal: an optional `+` removed.
pub open spec fn index_digits(s: Seq<char>) -> Seq<char> {
    if s.len() > 0 && s[0] == '+' {
        s.drop_first()
    } else {
        s
    }
}

/// The literals that `str::parse::<usize>` accepts.
pub open spec fn is_index_literal(s: Seq<char>) -> bool {
    let d = index_digits(s);
    d.len() > 0 && all_digits(d) && digits_value(d) <= usize::MAX
}

pub open spec fn index_value(s: Seq<char>) -> nat {
    digits_value(index_digits(s))
}

/// A number as written in a file: the literal text, which parses as a 32-bit float.
#[derive(Debug)]
pub struct Number {
    pub literal: String,
}

impl Number {
    pub open spec fn wf(&self) -> bool {
        is_float_literal(self.literal@)
    }

    /// The number written as `s`, if `s` is a literal that parses as a 32-bit float.
    pub fn parse(s: &str) -> (r: Option<Number>)
        ensures
            r is Some <==> is_float_literal(s@),
            r matches Some(n) ==> n.literal@ == s@ && n.wf(),
    {
        let c = crate::text::chars_of(s);
        if is_float_text(&c) {
            Some(Number { literal: crate::text::string_of(&c) })
        } else {
            None
        }
    }
}

impl Clone for Number {
    fn clone(&self) -> (r: Self)
        ensures
            r == *self,
    {
        Number { literal: self.literal.clone() }
    }
}

/// Reads an index literal (`str::parse::<usize>`).
pub fn parse_index(s: &Vec<char>) -> (r: Option<usize>)
    ensures
        r is Some <==> is_index_literal(s@),
        r matches Some(v) ==> v == index_value(s@),
{
    let from: usize = if s.len() > 0 && s[0] == '+' {
        1
    } else {
        0
    };
    let ghost d = index_digits(s@);
    assert(d =~= s@.subrange(from as int, s@.len() as int));
    if from == s.len() {
        return None;
    }
    let mut acc: usize = 0;
    let mut k: usize = from;
    while k < s.len()
        invariant
            from <= k <= s@.len(),
            d == index_digits(s@),
            d =~= s@.subrange(from as int, s@.len() as int),
            all_digits(d.take(k - from)),
            acc == digits_value(d.take(k - from)),
        decreases s@.len() - k,
    {
        let c = s[k];
        assert(d.take(k + 1 - from).drop_last() =~= d.take(k - from));
        assert(d.take(k + 1 - from).last() == c);
        if !is_digit_char(c) {
            assert(d[k - from] == c);
            assert(!is_digit(d[k - from]));
            assert(!all_digits(d));
            assert(d == index_digits(s@));
            assert(!is_index_literal(s@));
            return None;
        }
        let digit = (c as u32 - '0' as u32) as usize;
        if acc > (usize::MAX - digit) / 10 {
            proof {
                let m = usize::MAX as int;
                let a = acc as int;
                let g = digit as int;
                assert(a * 10 + g > m) by (nonlinear_arith)
                    requires
                        a > (m - g) / 10,
                        0 <= g <= 9,
                        m > 9,
                ;
                assert(is_digit(c));
                assert(digits_value(d.take(k + 1 - from)) == acc * 10 + digit_of(c));
                lemma_prefix_value_bound(d, k + 1 - from);
                assert(d == index_digits(s@));
                assert(!is_index_literal(s@));
            }
            return None;
        }
        acc = acc * 10 + digit;
        k = k + 1;
        assert(all_digits(d.take(k - from))) by {
            assert forall|i: int| 0 <= i < k - from implies is_digit(
                #[trigger] d.take(k - from)[i],
            ) by {
                if i < k - from - 1 {
                    assert(d.take(k - from)[i] == d.take(k - 1 - from)[i]);
                }
            }
        }
    }
    assert(d.take(k - from) =~= d);
    Some(acc)
}

/// A prefix of a digit string is worth at most the whole.
proof fn lemma_prefix_value_bound(d: Seq<char>, n: int)
    requires
        0 <= n <= d.len(),
    ensures
        all_digits(d) ==> digits_value(d.take(n)) <= digits_value(d),
    decreases d.len() - n,
{
    if n < d.len() && all_digits(d) {
        lemma_prefix_value_bound(d, n + 1);
        assert(d.take(n + 1).drop_last() =~= d.take(n));
    }
    if n == d.len() {
        assert(d.take(n) =~= d);
    }
}

pub fn is_digit_char(c: char) -> (r: bool)
    ensures
        r == is_digit(c),
{
    '0' <= c && c <= '9'
}

fn scan_digits(s: &Vec<char>, i: usize) -> (r: usize)
    requires
        i <= s@.len(),
    ensures
        r == digit_run(s@, i as int),
        i <= r <= s@.len(),
{
    let mut j: usize = i;
    while j < s.len() && is_digit_char(s[j])
        invariant
            i <= j <= s@.len(),
            digit_run(s@, i as int) == digit_run(s@, j as int),
        decreases s@.len() - j,
    {
        j = j + 1;
    }
    j
}

proof fn lemma_digit_run_bounds(s: Seq<char>, i: int)
    requires
        0 <= i <= s.len(),
    ensures
        i <= digit_run(s, i) <= s.len(),
        forall|k: int| i <= k < digit_run(s, i) ==> is_digit(#[trigger] s[k]),
    decreases s.len() - i,
{
    if i < s.len() && is_digit(s[i]) {
        lemma_digit_run_bounds(s, i + 1);
    }
}

fn lower_char(c: char) -> (r: char)
    ensures
        r == lower(c),
{
    if 'A' <= c && c <= 'Z' {
        ((c as u8) + 32) as char
    } else {
        c
    }
}

/// Whether `s[from..]`, lowered, is exactly `word`.
fn lowered_tail_is(s: &Vec<char>, from: usize, word: &Vec<char>) -> (r: bool)
    requires
        from <= s@.len(),
    ensures
        r == (lowered(s@.skip(from as int)) == word@),
{
    let ghost w = lowered(s@.skip(from as int));
    if s.len() - from != word.len() {
        assert(w.len() != word@.len());
        return false;
    }
    let n = s.len();
    let mut k: usize = 0;
    while k < word.len()
        invariant
            n == s@.len(),
            from + word@.len() == s@.len(),
            k <= word@.len(),
            w == lowered(s@.skip(from as int)),
            forall|m: int| 0 <= m < k ==> w[m] == word@[m],
        decreases word@.len() - k,
    {
        if lower_char(s[from + k]) != word[k] {
            assert(w[k as int] != word@[k as int]);
            return false;
        }
        k = k + 1;
    }
    assert(w =~= word@);
    true
}

/// Checks that `s` is a literal that `str::parse::<f32>` accepts.
pub fn is_float_text(s: &Vec<char>) -> (r: bool)
    ensures
        r == is_float_literal(s@),
{
    let sign: usize = if s.len() > 0 && (s[0] == '+' || s[0] == '-') {
        1
    } else {
        0
    };
    let special = lowered_tail_is(s, sign, &vec!['i', 'n', 'f']) || lowered_tail_is(
        s,
        sign,
        &vec!['i', 'n', 'f', 'i', 'n', 'i', 't', 'y'],
    ) || lowered_tail_is(s, sign, &vec!['n', 'a', 'n']);
    special || is_decimal_text(s)
}

/// Checks that `s` is a decimal literal (no `inf` or `nan`).
pub fn is_decimal_text(s: &Vec<char>) -> (r: bool)
    ensures
        r == is_decimal_literal(s@),
{
    let sign: usize = if s.len() > 0 && (s[0] == '+' || s[0] == '-') {
        1
    } else {
        0
    };
    let ie = scan_digits(s, sign);
    let point = ie < s.len() && s[ie] == '.';
    let fe = if point {
        scan_digits(s, ie + 1)
    } else {
        ie
    };
    let n_frac = if point {
        fe - (ie + 1)
    } else {
        0
    };
    if (ie - sign) + n_frac == 0 {
        return false;
    }
    if fe == s.len() {
        return true;
    }
    if s[fe] != 'e' && s[fe] != 'E' {
        return false;
    }
    let mut j: usize = fe + 1;
    if j < s.len() && (s[j] == '+' || s[j] == '-') {
        j = j + 1;
    }
    if j >= s.len() {
        return false;
    }
    scan_digits(s, j) == s.len()
}

/// Where an exponent's value stops being tracked exactly: beyond it only its
/// sign matters, since literals hold fewer than `2^64` digits.
const EXPONENT_CAP: u128 = 0x40_0000_0000_0000_0000;

/// Copies `s[from..to]` onto the end of `d`.
fn push_range(d: &mut Vec<char>, s: &Vec<char>, from: usize, to: usize)
    requires
        from <= to <= s@.len(),
    ensures
        final(d)@ == old(d)@ + s@.subrange(from as int, to as int),
{
    let mut k: usize = from;
    while k < to
        invariant
            from <= k <= to <= s@.len(),
            d@ == old(d)@ + s@.subrange(from as int, k as int),
        decreases to - k,
    {
        d.push(s[k]);
        k = k + 1;
        assert(d@ =~= old(d)@ + s@.subrange(from as int, k as int));
    }
}

/// The digits of a decimal literal with its point removed.
fn mantissa_digits(s: &Vec<char>) -> (d: Vec<char>)
    requires
        is_decimal_literal(s@),
    ensures
        d@ == int_digits(s@) + frac_digits(s@),
        all_digits(d@),
        d@.len() <= s@.len(),
{
    let sign: usize = if s.len() > 0 && (s[0] == '+' || s[0] == '-') {
        1
    } else {
        0
    };
    let ie = scan_digits(s, sign);
    let point = ie < s.len() && s[ie] == '.';
    let mut d: Vec<char> = Vec::new();
    push_range(&mut d, s, sign, ie);
    proof {
        lemma_digit_run_bounds(s@, sign as int);
    }
    if point {
        let fe = scan_digits(s, ie + 1);
        push_range(&mut d, s, ie + 1, fe);
        proof {
            lemma_digit_run_bounds(s@, ie + 1);
        }
    }
    proof {
        assert(d@ =~= int_digits(s@) + frac_digits(s@));
        assert forall|i: int| 0 <= i < d@.len() implies is_digit(#[trigger] d@[i]) by {
            if i < ie - sign {
                assert(d@[i] == s@[sign + i]);
            } else {
                assert(d@[i] == s@[ie + 1 + (i - (ie - sign))]);
            }
        }
    }
    d
}

/// The exponent of a decimal literal, exact below `EXPONENT_CAP` and at
/// least `EXPONENT_CAP` otherwise; and whether it is negative.
fn capped_exponent(s: &Vec<char>) -> (r: (u128, bool))
    requires
        is_decimal_literal(s@),
    ensures
        r.1 == exponent_negative(s@),
        r.0 < 10 * EXPONENT_CAP,
        digits_value(exp_digits(s@)) < EXPONENT_CAP ==> r.0 == digits_value(exp_digits(s@)),
        digits_value(exp_digits(s@)) >= EXPONENT_CAP ==> r.0 >= EXPONENT_CAP,
{
    let sign: usize = if s.len() > 0 && (s[0] == '+' || s[0] == '-') {
        1
    } else {
        0
    };
    let ie = scan_digits(s, sign);
    let fe = if ie < s.len() && s[ie] == '.' {
        scan_digits(s, ie + 1)
    } else {
        ie
    };
    if fe >= s.len() {
        assert(exp_digits(s@) =~= Seq::<char>::empty());
        return (0, false);
    }
    let mut e: u128 = 0;
    let mut exp_negative = false;
    let mut j: usize = fe + 1;
    if j < s.len() && (s[j] == '+' || s[j] == '-') {
        exp_negative = s[j] == '-';
        j = j + 1;
    }
    let start = j;
    proof {
        lemma_digit_run_bounds(s@, start as int);
        assert(s@.subrange(start as int, start as int) =~= Seq::<char>::empty());
    }
    while j < s.len()
        invariant
            start <= j <= s@.len(),
            forall|k: int| start <= k < s@.len() ==> is_digit(#[trigger] s@[k]),
            e < 10 * EXPONENT_CAP,
            digits_value(s@.subrange(start as int, j as int)) < EXPONENT_CAP ==> e
                == digits_value(s@.subrange(start as int, j as int)),
            digits_value(s@.subrange(start as int, j as int)) >= EXPONENT_CAP ==> e
                >= EXPONENT_CAP,
        decreases s@.len() - j,
    {
        assert(is_digit(s@[j as int]));
        let digit = (s[j] as u32 - '0' as u32) as u128;
        assert(s@.subrange(start as int, j + 1).drop_last() =~= s@.subrange(
            start as int,
            j as int,
        ));
        assert(s@.subrange(start as int, j + 1).last() == s@[j as int]);
        if e < EXPONENT_CAP {
            e = e * 10 + digit;
        }
        j = j + 1;
    }
    assert(s@.subrange(start as int, j as int) == exp_digits(s@));
    (e, exp_negative)
}

/// Whether the decimal literal `s` denotes a value in `[0.001, 10]`.
pub fn in_unit_range_text(s: &Vec<char>) -> (r: bool)
    ensures
        r == in_unit_range(s@),
{
    if !is_decimal_text(s) {
        return false;
    }
    if s.len() > 0 && s[0] == '-' {
        return false;
    }
    let d = mantissa_digits(s);
    let mut z: usize = 0;
    while z < d.len() && d[z] == '0'
        invariant
            z <= d@.len(),
            forall|i: int| 0 <= i < z ==> #[trigger] d@[i] == '0',
        decreases d@.len() - z,
    {
        z = z + 1;
    }
    if z == d.len() {
        proof {
            lemma_value_zero(d@);
            if scale(s@) + 3 < 0 {
                lemma_pow10_positive((-(scale(s@) + 3)) as nat);
            }
            assert(mantissa(s@) == 0);
            if scale(s@) + 3 >= 0 {
                let p = pow10((scale(s@) + 3) as nat);
                assert(0 * p == 0) by (nonlinear_arith);
            }
        }
        return false;
    }
    let (e, exp_negative) = capped_exponent(s);
    let nf = frac_len(s);
    let len = (d.len() - z) as i128;
    let ev: i128 = if exp_negative {
        -(e as i128)
    } else {
        e as i128
    };
    let q: i128 = len - 1 + ev - (nf as i128);
    let mut rest_zero = true;
    let mut k: usize = z + 1;
    while k < d.len()
        invariant
            z < k <= d@.len(),
            rest_zero == (forall|i: int| z < i < k ==> #[trigger] d@[i] == '0'),
        decreases d@.len() - k,
    {
        if d[k] != '0' {
            rest_zero = false;
        }
        k = k + 1;
    }
    let at_least = q + 3 >= 0;
    let at_most = q - 1 < 0 || (q - 1 == 0 && d[z] == '1' && rest_zero);
    proof {
        let m = digits_value(d@);
        let l = (d@.len() - z) as nat;
        lemma_value_magnitude(d@, z as int);
        assert(mantissa(s@) == m);
        lemma_scaled_compare(m, l, scale(s@) + 3);
        lemma_scaled_compare(m, l, scale(s@) - 1);
        let ex = digits_value(exp_digits(s@));
        if ex < EXPONENT_CAP {
            assert(q == l - 1 + scale(s@));
        } else {
            assert(l <= s@.len() && nf <= s@.len());
        }
    }
    at_least && at_most
}

/// Number of fraction digits of a decimal literal.
fn frac_len(s: &Vec<char>) -> (r: usize)
    requires
        is_decimal_literal(s@),
    ensures
        r == frac_digits(s@).len(),
        r <= s@.len(),
{
    let sign: usize = if s.len() > 0 && (s[0] == '+' || s[0] == '-') {
        1
    } else {
        0
    };
    let ie = scan_digits(s, sign);
    if ie < s.len() && s[ie] == '.' {
        let fe = scan_digits(s, ie + 1);
        fe - (ie + 1)
    } else {
        0
    }
}

proof fn lemma_pow10_positive(n: nat)
    ensures
        pow10(n) >= 1,
    decreases n,
{
    if n > 0 {
        lemma_pow10_positive((n - 1) as nat);
    }
}

proof fn lemma_pow10_monotone(a: nat, b: nat)
    requires
        a < b,
    ensures
        10 * pow10(a) <= pow10(b),
    decreases b,
{
    lemma_pow10_positive(a);
    if b > a + 1 {
        lemma_pow10_monotone(a, (b - 1) as nat);
    }
}

proof fn lemma_value_upper(d: Seq<char>)
    requires
        all_digits(d),
    ensures
        digits_value(d) < pow10(d.len()),
    decreases d.len(),
{
    if d.len() > 0 {
        let dl = d.drop_last();
        assert(all_digits(dl)) by {
            assert forall|i: int| 0 <= i < dl.len() implies is_digit(#[trigger] dl[i]) by {
                assert(dl[i] == d[i]);
            }
        }
        assert(is_digit(d[d.len() - 1]));
        lemma_value_upper(dl);
        assert(digits_value(d) == digits_value(dl) * 10 + digit_of(d.last()));
        assert(pow10(d.len()) == 10 * pow10(dl.len()));
    }
}

proof fn lemma_value_front(d: Seq<char>)
    requires
        d.len() >= 1,
        all_digits(d),
    ensures
        digits_value(d) == digit_of(d[0]) * pow10((d.len() - 1) as nat) + digits_value(
            d.drop_first(),
        ),
    decreases d.len(),
{
    if d.len() == 1 {
        assert(d.drop_last().len() == 0);
        assert(d.drop_first().len() == 0);
        assert(digits_value(d.drop_last()) == 0);
        assert(digits_value(d.drop_first()) == 0);
        assert(d.last() == d[0]);
        assert(pow10(0) == 1);
        assert(digits_value(d) == digit_of(d[0]));
    } else {
        let dl = d.drop_last();
        assert(all_digits(dl)) by {
            assert forall|i: int| 0 <= i < dl.len() implies is_digit(#[trigger] dl[i]) by {
                assert(dl[i] == d[i]);
            }
        }
        lemma_value_front(dl);
        assert(dl[0] == d[0]);
        assert(d.drop_first().drop_last() =~= dl.drop_first());
        assert(d.drop_first().last() == d.last());
        let x = digit_of(d[0]);
        let p = pow10((dl.len() - 1) as nat);
        let r = digits_value(dl.drop_first());
        let y = digit_of(d.last());
        assert(pow10((d.len() - 1) as nat) == 10 * pow10((d.len() - 2) as nat));
        assert(pow10((d.len() - 1) as nat) == 10 * p);
        assert(digits_value(d) == digits_value(dl) * 10 + y);
        assert(digits_value(dl) == x * p + r);
        assert(digits_value(d.drop_first()) == r * 10 + y);
        assert((x * p + r) * 10 == x * (10 * p) + r * 10) by (nonlinear_arith);
    }
}

proof fn lemma_value_zero(d: Seq<char>)
    requires
        all_digits(d),
    ensures
        digits_value(d) == 0 <==> (forall|i: int| 0 <= i < d.len() ==> #[trigger] d[i] == '0'),
    decreases d.len(),
{
    if d.len() > 0 {
        let dl = d.drop_last();
        assert(all_digits(dl)) by {
            assert forall|i: int| 0 <= i < dl.len() implies is_digit(#[trigger] dl[i]) by {
                assert(dl[i] == d[i]);
            }
        }
        lemma_value_zero(dl);
        assert(is_digit(d[d.len() - 1]));
        if digits_value(d) == 0 {
            assert forall|i: int| 0 <= i < d.len() implies #[trigger] d[i] == '0' by {
                if i < d.len() - 1 {
                    assert(dl[i] == d[i]);
                }
            }
        }
        if forall|i: int| 0 <= i < d.len() ==> #[trigger] d[i] == '0' {
            assert forall|i: int| 0 <= i < dl.len() implies #[trigger] dl[i] == '0' by {
                assert(dl[i] == d[i]);
            }
            assert(d[d.len() - 1] == '0');
        }
    }
}

/// With `d[z]` its first non-zero digit, the value of `d` lies in
/// `[10^(L-1), 10^L)` for `L = |d| - z`, and is `10^(L-1)` exactly when the
/// digits are a one followed by zeros.
proof fn lemma_value_magnitude(d: Seq<char>, z: int)
    requires
        all_digits(d),
        0 <= z < d.len(),
        d[z] != '0',
        forall|i: int| 0 <= i < z ==> #[trigger] d[i] == '0',
    ensures
        pow10((d.len() - z - 1) as nat) <= digits_value(d) < pow10((d.len() - z) as nat),
        digits_value(d) == pow10((d.len() - z - 1) as nat) <==> (d[z] == '1' && forall|i: int|
            z < i < d.len() ==> #[trigger] d[i] == '0'),
    decreases z,
{
    if z > 0 {
        let df = d.drop_first();
        assert(all_digits(df)) by {
            assert forall|i: int| 0 <= i < df.len() implies is_digit(#[trigger] df[i]) by {
                assert(df[i] == d[i + 1]);
            }
        }
        assert forall|i: int| 0 <= i < z - 1 implies #[trigger] df[i] == '0' by {
            assert(df[i] == d[i + 1]);
        }
        lemma_value_magnitude(df, z - 1);
        lemma_value_front(d);
        assert(digit_of(d[0]) == 0);
        let x0 = digit_of(d[0]);
        let p0 = pow10((d.len() - 1) as nat);
        assert(x0 * p0 == 0) by (nonlinear_arith)
            requires
                x0 == 0,
        ;
        assert(digits_value(d) == digits_value(df));
        assert(df.len() - (z - 1) == d.len() - z);
        assert(forall|i: int| z - 1 < i < df.len() ==> df[i] == d[i + 1]);
        assert(df[z - 1] == d[z]);
        if d[z] == '1' && forall|i: int| z < i < d.len() ==> #[trigger] d[i] == '0' {
            assert forall|i: int| z - 1 < i < df.len() implies #[trigger] df[i] == '0' by {
                assert(df[i] == d[i + 1]);
            }
        }
        if df[z - 1] == '1' && forall|i: int| z - 1 < i < df.len() ==> #[trigger] df[i] == '0' {
            assert forall|i: int| z < i < d.len() implies #[trigger] d[i] == '0' by {
                assert(df[i - 1] == d[i]);
            }
        }
    } else {
        let df = d.drop_first();
        assert(all_digits(df)) by {
            assert forall|i: int| 0 <= i < df.len() implies is_digit(#[trigger] df[i]) by {
                assert(df[i] == d[i + 1]);
            }
        }
        lemma_value_front(d);
        lemma_value_upper(df);
        lemma_value_zero(df);
        assert(is_digit(d[0]));
        let x = digit_of(d[0]);
        let p = pow10((d.len() - 1) as nat);
        let r = digits_value(df);
        assert(pow10(d.len() as nat) == 10 * p);
        assert(1 <= x <= 9);
        assert(p <= x * p) by (nonlinear_arith)
            requires
                1 <= x,
        ;
        assert(x * p + r < 10 * p) by (nonlinear_arith)
            requires
                x <= 9,
                r < p,
        ;
        if x * p + r == p {
            assert(x == 1 && r == 0) by (nonlinear_arith)
                requires
                    x * p + r == p,
                    1 <= x,
                    1 <= p,
            ;
            assert forall|i: int| z < i < d.len() implies #[trigger] d[i] == '0' by {
                assert(df[i - 1] == d[i]);
            }
        }
        if d[z] == '1' && forall|i: int| z < i < d.len() ==> #[trigger] d[i] == '0' {
            assert forall|i: int| 0 <= i < df.len() implies #[trigger] df[i] == '0' by {
                assert(df[i] == d[i + 1]);
            }
            assert(r == 0);
            assert(x == 1);
            assert(x * p == p) by (nonlinear_arith)
                requires
                    x == 1,
            ;
        }
    }
}

/// For `m` in `[10^(L-1), 10^L)`: `m * 10^k >= 1` exactly when `L - 1 + k >= 0`, and
/// `m * 10^k <= 1` exactly when `L - 1 + k < 0`, or it is zero and `m = 10^(L-1)`.
proof fn lemma_scaled_compare(m: nat, len: nat, k: int)
    requires
        len >= 1,
        pow10((len - 1) as nat) <= m < pow10(len),
    ensures
        scaled_at_least_one(m, k) <==> len - 1 + k >= 0,
        scaled_at_most_one(m, k) <==> (len - 1 + k < 0 || (len - 1 + k == 0 && m == pow10(
            (len - 1) as nat,
        ))),
{
    let lo = (len - 1) as nat;
    lemma_pow10_positive(lo);
    if k >= 0 {
        let p = pow10(k as nat);
        lemma_pow10_positive(k as nat);
        assert(m * p >= m) by (nonlinear_arith)
            requires
                p >= 1,
        ;
        if k > 0 {
            lemma_pow10_monotone(0, k as nat);
            assert(m * p >= 10) by (nonlinear_arith)
                requires
                    p >= 10,
                    m >= 1,
            ;
        } else {
            assert(k as nat == 0);
            assert(pow10(0) == 1);
            assert(p == 1);
            assert(m * p == m) by (nonlinear_arith)
                requires
                    p == 1,
            ;
            if len > 1 {
                lemma_pow10_monotone(0, lo);
            }
        }
    } else {
        let nk = (-k) as nat;
        if lo > nk {
            lemma_pow10_monotone(nk, lo);
        } else if lo < nk {
            if len < nk {
                lemma_pow10_monotone(len, nk);
            }
        }
    }
}

} // verus!
