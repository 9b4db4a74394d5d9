//! Character-level grammar shared by the drill and Gerber readers: Unicode
//! white space, trimming, line boundaries, and the two number forms the
//! files use (unsigned integers, and numbers read as a float reader reads
//! them, held exactly).
use vstd::prelude::*;

verus! {

/// Copies the characters of `s` into a vector.
pub fn chars_of(s: &str) -> (v: Vec<char>)
    ensures
        v@ == s@,
{
    let mut v: Vec<char> = Vec::new();
    for c in it: s.chars()
        invariant
            it.seq() == s@,
            v@ == s@.take(it.index() as int),
    {
        v.push(c);
    }
    assert(v@ =~= s@);
    v
}

} // verus!

verus! {

/// Unicode `White_Space`, the set that `char::is_whitespace` and
/// `str::trim` use.
pub open spec fn is_white_space(c: char) -> bool {
    let u = c as u32;
    ||| 0x09 <= u <= 0x0d
    ||| u == 0x20
    ||| u == 0x85
    ||| u == 0xa0
    ||| u == 0x1680
    ||| 0x2000 <= u <= 0x200a
    ||| u == 0x2028
    ||| u == 0x2029
    ||| u == 0x202f
    ||| u == 0x205f
    ||| u == 0x3000
}

pub fn white_space(c: char) -> (b: bool)
    ensures
        b == is_white_space(c),
{
    let u = c as u32;
    (0x09 <= u && u <= 0x0d) || u == 0x20 || u == 0x85 || u == 0xa0 || u == 0x1680 || (0x2000 <= u
        && u <= 0x200a) || u == 0x2028 || u == 0x2029 || u == 0x202f || u == 0x205f || u == 0x3000
}

/// `s` without its leading white space.
pub open spec fn trim_start(s: Seq<char>) -> Seq<char>
    decreases s.len(),
{
    if s.len() > 0 && is_white_space(s[0]) {
        trim_start(s.drop_first())
    } else {
        s
    }
}

/// `s` without its trailing white space.
pub open spec fn trim_end(s: Seq<char>) -> Seq<char>
    decreases s.len(),
{
    if s.len() > 0 && is_white_space(s.last()) {
        trim_end(s.drop_last())
    } else {
        s
    }
}

/// `s` without leading and trailing white space, as `str::trim` gives it.
pub open spec fn trim(s: Seq<char>) -> Seq<char> {
    trim_end(trim_start(s))
}

/// Bounds of the trimmed part of `s[a..b]`.
pub fn trim_range(s: &Vec<char>, a: usize, b: usize) -> (r: (usize, usize))
    requires
        a <= b <= s.len(),
    ensures
        a <= r.0 <= r.1 <= b,
        s@.subrange(r.0 as int, r.1 as int) == trim(s@.subrange(a as int, b as int)),
{
    let mut i = a;
    while i < b && white_space(s[i])
        invariant
            a <= i <= b <= s.len(),
            trim_start(s@.subrange(a as int, b as int)) == trim_start(
                s@.subrange(i as int, b as int),
            ),
        decreases b - i,
    {
        assert(s@.subrange(i as int, b as int).drop_first() =~= s@.subrange(i + 1, b as int));
        i = i + 1;
    }
    let mut j = b;
    while j > i && white_space(s[j - 1])
        invariant
            a <= i <= j <= b <= s.len(),
            trim_start(s@.subrange(a as int, b as int)) == s@.subrange(i as int, b as int),
            trim(s@.subrange(a as int, b as int)) == trim_end(s@.subrange(i as int, j as int)),
        decreases j - i,
    {
        assert(s@.subrange(i as int, j as int).drop_last() =~= s@.subrange(i as int, j - 1));
        j = j - 1;
    }
    (i, j)
}

/// Index of the first `c` in `s`, if any.
pub open spec fn find_char(s: Seq<char>, c: char) -> Option<int>
    decreases s.len(),
{
    if s.len() == 0 {
        None
    } else if s[0] == c {
        Some(0)
    } else {
        match find_char(s.drop_first(), c) {
            Some(i) => Some(i + 1),
            None => None,
        }
    }
}

pub proof fn lemma_find_char_found(s: Seq<char>, c: char, j: int)
    requires
        0 <= j < s.len(),
        s[j] == c,
        forall|k: int| 0 <= k < j ==> s[k] != c,
    ensures
        find_char(s, c) == Some(j),
    decreases j,
{
    if j > 0 {
        lemma_find_char_found(s.drop_first(), c, j - 1);
    }
}

pub proof fn lemma_find_char_absent(s: Seq<char>, c: char)
    requires
        forall|k: int| 0 <= k < s.len() ==> s[k] != c,
    ensures
        find_char(s, c) is None,
    decreases s.len(),
{
    if s.len() > 0 {
        lemma_find_char_absent(s.drop_first(), c);
    }
}

/// Position of the first `c` in `s[a..b]`, counted from `a`.
pub fn find_in_range(s: &Vec<char>, a: usize, b: usize, c: char) -> (r: Option<usize>)
    requires
        a <= b <= s.len(),
    ensures
        match r {
            Some(i) => a <= i < b && find_char(s@.subrange(a as int, b as int), c) == Some(
                i - a,
            ),
            None => find_char(s@.subrange(a as int, b as int), c) is None,
        },
{
    let mut i = a;
    while i < b
        invariant
            a <= i <= b <= s.len(),
            forall|k: int| a <= k < i ==> s@[k] != c,
        decreases b - i,
    {
        if s[i] == c {
            proof {
                lemma_find_char_found(s@.subrange(a as int, b as int), c, i - a);
            }
            return Some(i);
        }
        i = i + 1;
    }
    proof {
        lemma_find_char_absent(s@.subrange(a as int, b as int), c);
    }
    None
}

} // verus!

verus! {

pub open spec fn is_digit(c: char) -> bool {
    0x30 <= (c as u32) <= 0x39
}

pub open spec fn digit_value(c: char) -> int {
    (c as u32) - 0x30
}

pub open spec fn all_digits(s: Seq<char>) -> bool {
    forall|i: int| 0 <= i < s.len() ==> is_digit(#[trigger] s[i])
}

/// The number that the decimal digits `s` spell (0 for no digits).
pub open spec fn digits_value(s: Seq<char>) -> int
    decreases s.len(),
{
    if s.len() == 0 {
        0
    } else {
        digits_value(s.drop_last()) * 10 + digit_value(s.last())
    }
}

pub proof fn lemma_digits_value_nonneg(s: Seq<char>)
    requires
        all_digits(s),
    ensures
        digits_value(s) >= 0,
    decreases s.len(),
{
    if s.len() > 0 {
        lemma_digits_value_nonneg(s.drop_last());
    }
}

/// The digits of an unsigned integer: a single leading `+` is allowed.
pub open spec fn unsigned_digits(s: Seq<char>) -> Seq<char> {
    if s.len() > 0 && s[0] == '+' {
        s.drop_first()
    } else {
        s
    }
}

/// What `str::parse::<u32>` gives: an optional `+`, one or more ASCII
/// digits, and a value that fits.
pub open spec fn spec_parse_u32(s: Seq<char>) -> Option<u32> {
    let t = unsigned_digits(s);
    if t.len() > 0 && all_digits(t) && digits_value(t) <= u32::MAX {
        Some(digits_value(t) as u32)
    } else {
        None
    }
}

pub open spec fn min_int(a: int, b: int) -> int {
    if a <= b {
        a
    } else {
        b
    }
}

/// Continues reading digits: with `acc` the saturated value of the digits
/// `prefix`, the saturated value of `prefix` followed by the digits
/// `s[a..b]`; `None` when some character there is not a digit.
fn digits_extend(
    s: &Vec<char>,
    a: usize,
    b: usize,
    acc: u128,
    cap: u128,
    Ghost(prefix): Ghost<Seq<char>>,
) -> (r: Option<u128>)
    requires
        a <= b <= s.len(),
        cap <= 0x1_0000_0000_0000_0000_0000_0000u128,
        all_digits(prefix),
        acc == min_int(digits_value(prefix), cap as int),
    ensures
        r is None <==> !all_digits(s@.subrange(a as int, b as int)),
        r matches Some(v) ==> v == min_int(
            digits_value(prefix + s@.subrange(a as int, b as int)),
            cap as int,
        ),
{
    let mut acc = acc;
    let mut i = a;
    assert(prefix + s@.subrange(a as int, a as int) =~= prefix);
    while i < b
        invariant
            a <= i <= b <= s.len(),
            cap <= 0x1_0000_0000_0000_0000_0000_0000u128,
            all_digits(prefix),
            all_digits(s@.subrange(a as int, i as int)),
            acc == min_int(digits_value(prefix + s@.subrange(a as int, i as int)), cap as int),
        decreases b - i,
    {
        let c = s[i];
        let u = c as u32;
        if u < 0x30 || u > 0x39 {
            assert(!is_digit(s@.subrange(a as int, b as int)[i - a]));
            return None;
        }
        let d = (u - 0x30) as u128;
        let ghost prev = prefix + s@.subrange(a as int, i as int);
        let ghost next = prefix + s@.subrange(a as int, i + 1);
        assert(next.drop_last() =~= prev);
        assert(all_digits(prev)) by {
            assert forall|k: int| 0 <= k < prev.len() implies is_digit(#[trigger] prev[k]) by {
                if k < prefix.len() {
                    assert(prev[k] == prefix[k]);
                } else {
                    assert(prev[k] == s@.subrange(a as int, i as int)[k - prefix.len()]);
                }
            }
        }
        proof {
            lemma_digits_value_nonneg(prev);
        }
        acc = acc * 10 + d;
        if acc > cap {
            acc = cap;
        }
        i = i + 1;
        assert(all_digits(s@.subrange(a as int, i as int))) by {
            let sub = s@.subrange(a as int, i as int);
            assert forall|k: int| 0 <= k < sub.len() implies is_digit(#[trigger] sub[k]) by {
                if k < sub.len() - 1 {
                    assert(sub[k] == s@.subrange(a as int, i - 1)[k]);
                }
            }
        }
    }
    Some(acc)
}

/// The value of the digits `s[a..b]`, saturated at `cap`; `None` when some
/// character there is not a digit.
fn digits_capped(s: &Vec<char>, a: usize, b: usize, cap: u128) -> (r: Option<u128>)
    requires
        a <= b <= s.len(),
        cap <= 0x1_0000_0000_0000_0000_0000_0000u128,
    ensures
        r is None <==> !all_digits(s@.subrange(a as int, b as int)),
        r matches Some(v) ==> v == min_int(digits_value(s@.subrange(a as int, b as int)), cap as int),
{
    let ghost empty = Seq::<char>::empty();
    assert(empty + s@.subrange(a as int, b as int) =~= s@.subrange(a as int, b as int));
    digits_extend(s, a, b, 0, cap, Ghost(empty))
}

/// Reads the unsigned integer `s[a..b]`.
pub fn parse_u32_range(s: &Vec<char>, a: usize, b: usize) -> (r: Option<u32>)
    requires
        a <= b <= s.len(),
    ensures
        r == spec_parse_u32(s@.subrange(a as int, b as int)),
{
    let ghost t = s@.subrange(a as int, b as int);
    let mut i = a;
    if i < b && s[i] == '+' {
        i = i + 1;
    }
    assert(unsigned_digits(t) =~= s@.subrange(i as int, b as int));
    if i == b {
        return None;
    }
    match digits_capped(s, i, b, 0x1_0000_0000) {
        None => None,
        Some(v) => {
            if v > 0xffff_ffff {
                None
            } else {
                Some(v as u32)
            }
        },
    }
}

/// Reads an unsigned integer as `str::parse::<u32>` does.
pub fn parse_unsigned(s: &str) -> (r: Option<u32>)
    ensures
        r == spec_parse_u32(s@),
{
    let v = chars_of(s);
    assert(v@.subrange(0, v@.len() as int) =~= v@);
    parse_u32_range(&v, 0, v.len())
}

} // verus!

verus! {

/// The sign of a number and the rest: `(negative, body)`.
pub open spec fn sign_and_body(s: Seq<char>) -> (bool, Seq<char>) {
    if s.len() > 0 && (s[0] == '+' || s[0] == '-') {
        (s[0] == '-', s.drop_first())
    } else {
        (false, s)
    }
}

pub open spec fn is_exponent_mark(c: char) -> bool {
    c == 'e' || c == 'E'
}

/// A decimal in the form `str::parse::<f64>` reads for finite numbers: an
/// optional sign; digits with at most one point and at least one digit;
/// optionally `e` or `E`, a sign and digits. Gives the sign, the integer
/// digits, the fraction digits and the exponent.
pub open spec fn decimal_form(s: Seq<char>) -> Option<(bool, Seq<char>, Seq<char>, int)> {
    let (neg, body) = sign_and_body(s);
    let (mantissa, exponent) = mantissa_and_exponent(body);
    let (ip, fp) = decimal_parts(mantissa);
    match spec_parse_exponent(exponent) {
        Some(e) => if all_digits(ip) && all_digits(fp) && (ip.len() > 0 || fp.len() > 0) {
            Some((neg, ip, fp, e))
        } else {
            None
        },
        None => None,
    }
}

/// Index of the first `e` or `E` in `s`, if any.
pub open spec fn find_exponent_mark(s: Seq<char>) -> Option<int>
    decreases s.len(),
{
    if s.len() == 0 {
        None
    } else if is_exponent_mark(s[0]) {
        Some(0)
    } else {
        match find_exponent_mark(s.drop_first()) {
            Some(i) => Some(i + 1),
            None => None,
        }
    }
}

/// The mantissa of a number body and the text of its exponent, if any.
pub open spec fn mantissa_and_exponent(body: Seq<char>) -> (Seq<char>, Option<Seq<char>>) {
    match find_exponent_mark(body) {
        Some(e) => (body.take(e), Some(body.skip(e + 1))),
        None => (body, None),
    }
}

/// The integer digits and the fraction digits of a mantissa.
pub open spec fn decimal_parts(mantissa: Seq<char>) -> (Seq<char>, Seq<char>) {
    match find_char(mantissa, '.') {
        Some(d) => (mantissa.take(d), mantissa.skip(d + 1)),
        None => (mantissa, Seq::empty()),
    }
}

/// The exponent a number has: 0 without one, `None` when its text is not
/// an optional sign followed by digits.
pub open spec fn spec_parse_exponent(t: Option<Seq<char>>) -> Option<int> {
    match t {
        None => Some(0),
        Some(t) => {
            let (neg, d) = sign_and_body(t);
            if d.len() > 0 && all_digits(d) {
                Some(
                    if neg {
                        -digits_value(d)
                    } else {
                        digits_value(d)
                    },
                )
            } else {
                None
            }
        },
    }
}

pub proof fn lemma_find_exponent_mark_found(s: Seq<char>, j: int)
    requires
        0 <= j < s.len(),
        is_exponent_mark(s[j]),
        forall|k: int| 0 <= k < j ==> !is_exponent_mark(s[k]),
    ensures
        find_exponent_mark(s) == Some(j),
    decreases j,
{
    if j > 0 {
        lemma_find_exponent_mark_found(s.drop_first(), j - 1);
    }
}

pub proof fn lemma_find_exponent_mark_absent(s: Seq<char>)
    requires
        forall|k: int| 0 <= k < s.len() ==> !is_exponent_mark(s[k]),
    ensures
        find_exponent_mark(s) is None,
    decreases s.len(),
{
    if s.len() > 0 {
        lemma_find_exponent_mark_absent(s.drop_first());
    }
}

/// Position of the first `e` or `E` in `s[a..b]`.
fn find_exponent_in_range(s: &Vec<char>, a: usize, b: usize) -> (r: Option<usize>)
    requires
        a <= b <= s.len(),
    ensures
        match r {
            Some(i) => a <= i < b && find_exponent_mark(s@.subrange(a as int, b as int)) == Some(
                i - a,
            ),
            None => find_exponent_mark(s@.subrange(a as int, b as int)) is None,
        },
{
    let mut i = a;
    while i < b
        invariant
            a <= i <= b <= s.len(),
            forall|k: int| a <= k < i ==> !is_exponent_mark(s@[k]),
        decreases b - i,
    {
        if s[i] == 'e' || s[i] == 'E' {
            proof {
                lemma_find_exponent_mark_found(s@.subrange(a as int, b as int), i - a);
            }
            return Some(i);
        }
        i = i + 1;
    }
    proof {
        lemma_find_exponent_mark_absent(s@.subrange(a as int, b as int));
    }
    None
}

/// Saturation bound of exponents: a number whose exponent is this large in
/// size is infinite or zero at any float precision.
pub open spec fn exponent_cap() -> int {
    0x1_0000_0000_0000_0000_0000
}

/// Reads the exponent text `s[a..b]` (after the `e`): `Some((negative,
/// value))` with the value saturated at `exponent_cap()`.
fn exponent_range(s: &Vec<char>, a: usize, b: usize) -> (r: Option<(bool, u128)>)
    requires
        a <= b <= s.len(),
    ensures
        match spec_parse_exponent(Some(s@.subrange(a as int, b as int))) {
            Some(e) => r matches Some((neg, v)) && v == min_int(
                if neg {
                    -e
                } else {
                    e
                },
                exponent_cap(),
            ) && (neg ==> e <= 0) && (!neg ==> e >= 0),
            None => r is None,
        },
{
    let (neg, i) = split_sign(s, a, b);
    if i == b {
        return None;
    }
    proof {
        lemma_digits_value_nonneg_if_digits(s@.subrange(i as int, b as int));
    }
    match digits_capped(s, i, b, 0x1_0000_0000_0000_0000_0000) {
        None => None,
        Some(v) => Some((neg, v)),
    }
}

proof fn lemma_digits_value_nonneg_if_digits(s: Seq<char>)
    ensures
        all_digits(s) ==> digits_value(s) >= 0,
{
    if all_digits(s) {
        lemma_digits_value_nonneg(s);
    }
}

/// Where the parts of a decimal lie in the text.
struct DecimalSyntax {
    neg: bool,
    int_start: usize,
    int_end: usize,
    frac_start: usize,
    frac_end: usize,
    exp_neg: bool,
    /// Magnitude of the exponent, saturated at `exponent_cap()`.
    exp_value: u128,
    exp: Ghost<int>,
}

impl DecimalSyntax {
    spec fn int_digits(&self, s: Seq<char>) -> Seq<char> {
        s.subrange(self.int_start as int, self.int_end as int)
    }

    spec fn frac_digits(&self, s: Seq<char>) -> Seq<char> {
        s.subrange(self.frac_start as int, self.frac_end as int)
    }

    spec fn digits(&self, s: Seq<char>) -> Seq<char> {
        self.int_digits(s) + self.frac_digits(s)
    }

    spec fn wf(&self, s: Seq<char>) -> bool {
        &&& self.int_start <= self.int_end <= self.frac_start <= self.frac_end <= s.len()
        &&& self.exp_value == min_int(
            if self.exp_neg {
                -self.exp@
            } else {
                self.exp@
            },
            exponent_cap(),
        )
        &&& self.exp_neg ==> self.exp@ <= 0
        &&& !self.exp_neg ==> self.exp@ >= 0
    }

    /// The form of the text once its digits are known to be well formed.
    spec fn form(&self, s: Seq<char>) -> Option<(bool, Seq<char>, Seq<char>, int)> {
        if all_digits(self.int_digits(s)) && all_digits(self.frac_digits(s)) && (self.int_end
            > self.int_start || self.frac_end > self.frac_start) {
            Some((self.neg, self.int_digits(s), self.frac_digits(s), self.exp@))
        } else {
            None
        }
    }
}

/// Reads an optional sign at the start of `s[a..b]`: whether it is `-`,
/// and where the body starts.
fn split_sign(s: &Vec<char>, a: usize, b: usize) -> (r: (bool, usize))
    requires
        a <= b <= s.len(),
    ensures
        a <= r.1 <= b,
        sign_and_body(s@.subrange(a as int, b as int)) == (r.0, s@.subrange(r.1 as int, b as int)),
{
    let ghost t = s@.subrange(a as int, b as int);
    if a < b && (s[a] == '+' || s[a] == '-') {
        assert(t.drop_first() =~= s@.subrange(a + 1, b as int));
        (s[a] == '-', a + 1)
    } else {
        assert(t =~= s@.subrange(a as int, b as int));
        (false, a)
    }
}

/// Where the mantissa of the body `s[i..b]` ends, and where its exponent
/// mark stands, if it has one.
fn split_exponent(s: &Vec<char>, i: usize, b: usize) -> (r: (usize, Option<usize>))
    requires
        i <= b <= s.len(),
    ensures
        i <= r.0 <= b,
        r.1 is None ==> r.0 == b,
        r.1 matches Some(p) ==> p == r.0 && p < b,
        mantissa_and_exponent(s@.subrange(i as int, b as int)) == (
            s@.subrange(i as int, r.0 as int),
            match r.1 {
                Some(p) => Some(s@.subrange(p + 1, b as int)),
                None => None,
            },
        ),
{
    let ghost body = s@.subrange(i as int, b as int);
    let e_pos = find_exponent_in_range(s, i, b);
    match e_pos {
        Some(p) => {
            assert(body.take(p - i) =~= s@.subrange(i as int, p as int));
            assert(body.skip(p - i + 1) =~= s@.subrange(p + 1, b as int));
            (p, Some(p))
        },
        None => {
            assert(body =~= s@.subrange(i as int, b as int));
            (b, None)
        },
    }
}

/// Where the integer digits of the mantissa `s[i..m]` end and its fraction
/// digits start.
fn split_point(s: &Vec<char>, i: usize, m: usize) -> (r: (usize, usize))
    requires
        i <= m <= s.len(),
    ensures
        i <= r.0 <= r.1 <= m,
        decimal_parts(s@.subrange(i as int, m as int)) == (
            s@.subrange(i as int, r.0 as int),
            s@.subrange(r.1 as int, m as int),
        ),
{
    let ghost mantissa = s@.subrange(i as int, m as int);
    match find_in_range(s, i, m, '.') {
        Some(d) => {
            assert(mantissa.take(d - i) =~= s@.subrange(i as int, d as int));
            assert(mantissa.skip(d - i + 1) =~= s@.subrange(d + 1, m as int));
            (d, d + 1)
        },
        None => {
            assert(mantissa =~= s@.subrange(i as int, m as int));
            assert(s@.subrange(m as int, m as int) =~= Seq::<char>::empty());
            (m, m)
        },
    }
}

/// Splits the decimal `s[a..b]` into sign, integer digits, fraction digits
/// and exponent; `None` when the exponent is malformed.
fn decimal_syntax(s: &Vec<char>, a: usize, b: usize) -> (r: Option<DecimalSyntax>)
    requires
        a <= b <= s.len(),
    ensures
        match r {
            Some(x) => x.wf(s@) && decimal_form(s@.subrange(a as int, b as int)) == x.form(s@),
            None => decimal_form(s@.subrange(a as int, b as int)) is None,
        },
{
    let (neg, i) = split_sign(s, a, b);
    let (mant_end, e_pos) = split_exponent(s, i, b);
    let (int_end, frac_start) = split_point(s, i, mant_end);
    let ghost exp_text: Option<Seq<char>> = match e_pos {
        Some(p) => Some(s@.subrange(p + 1, b as int)),
        None => None,
    };
    let (exp_neg, exp_value) = match e_pos {
        Some(p) => match exponent_range(s, p + 1, b) {
            Some(x) => x,
            None => {
                return None;
            },
        },
        None => (false, 0u128),
    };
    let ghost e: int = spec_parse_exponent(exp_text)->Some_0;
    let x = DecimalSyntax {
        neg,
        int_start: i,
        int_end,
        frac_start,
        frac_end: mant_end,
        exp_neg,
        exp_value,
        exp: Ghost(e),
    };
    assert(x.int_digits(s@).len() > 0 || x.frac_digits(s@).len() > 0 <==> (x.int_end > x.int_start
        || x.frac_end > x.frac_start));
    Some(x)
}

} // verus!

verus! {

/// A number as `str::parse::<f64>` reads it, held exactly: a decimal
/// `±digits × 10^exponent` (the digits most significant first; no digits
/// means zero), or a signed infinity, or a signed "not a number".
#[derive(Debug, Clone, PartialEq)]
pub enum Number {
    Finite { negative: bool, digits: Vec<char>, exponent: i128 },
    Infinite { negative: bool },
    NaN { negative: bool },
}

/// The mathematical content of a `Number`.
pub enum NumberValue {
    Finite { negative: bool, digits: Seq<char>, exponent: int },
    Infinite { negative: bool },
    NaN { negative: bool },
}

impl View for Number {
    type V = NumberValue;

    open spec fn view(&self) -> NumberValue {
        match self {
            Number::Finite { negative, digits, exponent } => NumberValue::Finite {
                negative: *negative,
                digits: digits@,
                exponent: *exponent as int,
            },
            Number::Infinite { negative } => NumberValue::Infinite { negative: *negative },
            Number::NaN { negative } => NumberValue::NaN { negative: *negative },
        }
    }
}

fn copy_chars(v: &Vec<char>) -> (r: Vec<char>)
    ensures
        r@ == v@,
{
    let mut r: Vec<char> = Vec::new();
    let mut i: usize = 0;
    while i < v.len()
        invariant
            i <= v.len(),
            r@ == v@.take(i as int),
        decreases v.len() - i,
    {
        r.push(v[i]);
        i = i + 1;
        assert(r@ =~= v@.take(i as int));
    }
    assert(v@.take(v.len() as int) =~= v@);
    r
}

impl Number {
    /// A copy of this number.
    pub fn copy(&self) -> (r: Number)
        ensures
            r@ == self@,
    {
        match self {
            Number::Finite { negative, digits, exponent } => Number::Finite {
                negative: *negative,
                digits: copy_chars(digits),
                exponent: *exponent,
            },
            Number::Infinite { negative } => Number::Infinite { negative: *negative },
            Number::NaN { negative } => Number::NaN { negative: *negative },
        }
    }
}

/// `s` is the word `lower`, each letter in either case (`upper` holds the
/// same word in capitals).
pub open spec fn is_word(s: Seq<char>, lower: Seq<char>, upper: Seq<char>) -> bool {
    &&& s.len() == lower.len()
    &&& forall|i: int| 0 <= i < s.len() ==> s[i] == lower[i] || s[i] == upper[i]
}

pub open spec fn is_infinity_word(s: Seq<char>) -> bool {
    is_word(s, seq!['i', 'n', 'f'], seq!['I', 'N', 'F']) || is_word(
        s,
        seq!['i', 'n', 'f', 'i', 'n', 'i', 't', 'y'],
        seq!['I', 'N', 'F', 'I', 'N', 'I', 'T', 'Y'],
    )
}

pub open spec fn is_nan_word(s: Seq<char>) -> bool {
    is_word(s, seq!['n', 'a', 'n'], seq!['N', 'A', 'N'])
}

pub open spec fn all_zeros(d: Seq<char>) -> bool {
    forall|i: int| 0 <= i < d.len() ==> d[i] == '0'
}

/// The value of `±d × 10^(e - frac_len)`. Exponents of `exponent_cap()` or
/// more in size are folded to what they give at any float precision: an
/// infinity for nonzero digits scaled up, zero for digits scaled down.
pub open spec fn finite_value(negative: bool, d: Seq<char>, frac_len: nat, e: int) -> NumberValue {
    if e >= exponent_cap() {
        if all_zeros(d) {
            NumberValue::Finite { negative, digits: d, exponent: -frac_len }
        } else {
            NumberValue::Infinite { negative }
        }
    } else if e <= -exponent_cap() {
        NumberValue::Finite { negative, digits: Seq::empty(), exponent: 0 }
    } else {
        NumberValue::Finite { negative, digits: d, exponent: e - frac_len }
    }
}

/// The number `str::parse::<f64>` reads from `s`: an optional sign, then
/// `inf`, `infinity` or `nan` in any case, or a decimal (see
/// `decimal_form`); `None` for any other text.
pub open spec fn spec_parse_number(s: Seq<char>) -> Option<NumberValue> {
    let (negative, body) = sign_and_body(s);
    if is_infinity_word(body) {
        Some(NumberValue::Infinite { negative })
    } else if is_nan_word(body) {
        Some(NumberValue::NaN { negative })
    } else {
        match decimal_form(s) {
            Some((neg, ip, fp, e)) => Some(finite_value(neg, ip + fp, fp.len(), e)),
            None => None,
        }
    }
}

/// Whether `s[a..b]` is the word `lower` in either case.
fn word_in_range(s: &Vec<char>, a: usize, b: usize, lower: &[char], upper: &[char]) -> (r: bool)
    requires
        a <= b <= s.len(),
        lower@.len() == upper@.len(),
    ensures
        r == is_word(s@.subrange(a as int, b as int), lower@, upper@),
{
    if b - a != lower.len() {
        return false;
    }
    let mut i: usize = 0;
    while i < lower.len()
        invariant
            b - a == lower@.len() == upper@.len(),
            a <= b <= s.len(),
            i <= lower@.len(),
            forall|k: int| 0 <= k < i ==> s@[a + k] == lower@[k] || s@[a + k] == upper@[k],
        decreases lower.len() - i,
    {
        if s[a + i] != lower[i] && s[a + i] != upper[i] {
            return false;
        }
        i = i + 1;
    }
    true
}

/// Whether `s[a..b]` holds digits only.
fn digits_in_range(s: &Vec<char>, a: usize, b: usize) -> (r: bool)
    requires
        a <= b <= s.len(),
    ensures
        r == all_digits(s@.subrange(a as int, b as int)),
{
    let mut i = a;
    while i < b
        invariant
            a <= i <= b <= s.len(),
            forall|k: int| a <= k < i ==> is_digit(s@[k]),
        decreases b - i,
    {
        let u = s[i] as u32;
        if u < 0x30 || u > 0x39 {
            assert(!is_digit(s@.subrange(a as int, b as int)[i - a]));
            return false;
        }
        i = i + 1;
    }
    true
}

/// Appends `s[a..b]` to `out`.
fn push_range(out: &mut Vec<char>, s: &Vec<char>, a: usize, b: usize)
    requires
        a <= b <= s.len(),
    ensures
        final(out)@ == old(out)@ + s@.subrange(a as int, b as int),
{
    let ghost start = out@;
    let mut i = a;
    while i < b
        invariant
            a <= i <= b <= s.len(),
            out@ == start + s@.subrange(a as int, i as int),
        decreases b - i,
    {
        out.push(s[i]);
        i = i + 1;
        assert(out@ =~= start + s@.subrange(a as int, i as int));
    }
}

fn zeros_only(d: &Vec<char>) -> (r: bool)
    ensures
        r == all_zeros(d@),
{
    let mut i: usize = 0;
    while i < d.len()
        invariant
            i <= d.len(),
            forall|k: int| 0 <= k < i ==> d@[k] == '0',
        decreases d.len() - i,
    {
        if d[i] != '0' {
            return false;
        }
        i = i + 1;
    }
    true
}

/// Reads the number `s[a..b]`.
pub fn parse_number_range(s: &Vec<char>, a: usize, b: usize) -> (r: Option<Number>)
    requires
        a <= b <= s.len(),
    ensures
        match r {
            Some(n) => spec_parse_number(s@.subrange(a as int, b as int)) == Some(n@),
            None => spec_parse_number(s@.subrange(a as int, b as int)) is None,
        },
{
    let (negative, i) = split_sign(s, a, b);
    if word_in_range(s, i, b, &['i', 'n', 'f'], &['I', 'N', 'F']) || word_in_range(
        s,
        i,
        b,
        &['i', 'n', 'f', 'i', 'n', 'i', 't', 'y'],
        &['I', 'N', 'F', 'I', 'N', 'I', 'T', 'Y'],
    ) {
        return Some(Number::Infinite { negative });
    }
    if word_in_range(s, i, b, &['n', 'a', 'n'], &['N', 'A', 'N']) {
        return Some(Number::NaN { negative });
    }
    let x = match decimal_syntax(s, a, b) {
        Some(x) => x,
        None => {
            return None;
        },
    };
    if x.int_end == x.int_start && x.frac_end == x.frac_start {
        return None;
    }
    if !digits_in_range(s, x.int_start, x.int_end) || !digits_in_range(s, x.frac_start, x.frac_end) {
        return None;
    }
    let mut digits: Vec<char> = Vec::new();
    push_range(&mut digits, s, x.int_start, x.int_end);
    push_range(&mut digits, s, x.frac_start, x.frac_end);
    assert(digits@ =~= x.digits(s@));
    let lf = (x.frac_end - x.frac_start) as i128;
    if x.exp_value >= 0x1_0000_0000_0000_0000_0000 {
        if x.exp_neg {
            return Some(Number::Finite { negative: x.neg, digits: Vec::new(), exponent: 0 });
        } else if zeros_only(&digits) {
            return Some(Number::Finite { negative: x.neg, digits, exponent: -lf });
        } else {
            return Some(Number::Infinite { negative: x.neg });
        }
    }
    let e: i128 = if x.exp_neg {
        -(x.exp_value as i128)
    } else {
        x.exp_value as i128
    };
    Some(Number::Finite { negative: x.neg, digits, exponent: e - lf })
}

/// Reads a number as `str::parse::<f64>` does, keeping its exact value
/// (see `spec_parse_number`).
pub fn parse_number(s: &str) -> (r: Option<Number>)
    ensures
        match r {
            Some(n) => spec_parse_number(s@) == Some(n@),
            None => spec_parse_number(s@) is None,
        },
{
    let v = chars_of(s);
    assert(v@.subrange(0, v@.len() as int) =~= v@);
    parse_number_range(&v, 0, v.len())
}

} // verus!

verus! {

/// The sign of `n`.
pub open spec fn is_negative(n: NumberValue) -> bool {
    match n {
        NumberValue::Finite { negative, .. } => negative,
        NumberValue::Infinite { negative } => negative,
        NumberValue::NaN { negative } => negative,
    }
}

/// `n` with its sign set to negative.
pub open spec fn negated(n: NumberValue) -> NumberValue {
    match n {
        NumberValue::Finite { digits, exponent, .. } => NumberValue::Finite {
            negative: true,
            digits,
            exponent,
        },
        NumberValue::Infinite { .. } => NumberValue::Infinite { negative: true },
        NumberValue::NaN { .. } => NumberValue::NaN { negative: true },
    }
}

proof fn lemma_sign_and_body_unsigned(b: Seq<char>)
    requires
        b.len() > 0,
        b[0] != '+',
        b[0] != '-',
    ensures
        sign_and_body(b) == (false, b),
        sign_and_body(seq!['-'] + b) == (true, b),
        sign_and_body(seq!['+'] + b) == (false, b),
{
    assert((seq!['-'] + b).drop_first() =~= b);
    assert((seq!['+'] + b).drop_first() =~= b);
}

/// A leading `-` makes a number negative and changes nothing else; a
/// leading `+` changes nothing. Texts without a first sign of their own
/// are read unsigned.
pub proof fn law_number_sign(b: Seq<char>)
    requires
        b.len() > 0,
        b[0] != '+',
        b[0] != '-',
    ensures
        spec_parse_number(b) is Some ==> !is_negative(spec_parse_number(b)->Some_0),
        spec_parse_number(seq!['-'] + b) == match spec_parse_number(b) {
            Some(n) => Some(negated(n)),
            None => None,
        },
        spec_parse_number(seq!['+'] + b) == spec_parse_number(b),
{
    lemma_sign_and_body_unsigned(b);
}

proof fn lemma_not_a_word_when_first_is_digit(s: Seq<char>)
    requires
        s.len() > 0,
        is_digit(s[0]) || s[0] == '.',
    ensures
        !is_infinity_word(s),
        !is_nan_word(s),
{
    assert(s[0] != 'i' && s[0] != 'I' && s[0] != 'n' && s[0] != 'N');
}

proof fn lemma_no_exponent_mark(s: Seq<char>)
    requires
        forall|k: int| 0 <= k < s.len() ==> is_digit(#[trigger] s[k]) || s[k] == '.',
    ensures
        find_exponent_mark(s) is None,
{
    lemma_find_exponent_mark_absent(s);
}

/// Digits with a point, `ip.fp` (either side may be empty, not both), are
/// the decimal `ip fp × 10^-(digits after the point)`.
pub proof fn law_number_plain_decimal(ip: Seq<char>, fp: Seq<char>)
    requires
        all_digits(ip),
        all_digits(fp),
        ip.len() > 0 || fp.len() > 0,
    ensures
        spec_parse_number(ip + seq!['.'] + fp) == Some(
            NumberValue::Finite { negative: false, digits: ip + fp, exponent: -fp.len() },
        ),
{
    let s = ip + seq!['.'] + fp;
    assert forall|k: int| 0 <= k < s.len() implies is_digit(#[trigger] s[k]) || s[k] == '.' by {
        if k < ip.len() {
            assert(s[k] == ip[k]);
        } else if k > ip.len() {
            assert(s[k] == fp[k - ip.len() - 1]);
        }
    }
    assert(is_digit(s[0]) || s[0] == '.');
    assert(s[0] != '+' && s[0] != '-');
    assert(sign_and_body(s) == (false, s));
    lemma_not_a_word_when_first_is_digit(s);
    lemma_no_exponent_mark(s);
    assert forall|k: int| 0 <= k < ip.len() implies s[k] != '.' by {
        assert(s[k] == ip[k]);
    }
    lemma_find_char_found(s, '.', ip.len() as int);
    assert(s.take(ip.len() as int) =~= ip);
    assert(s.skip(ip.len() as int + 1) =~= fp);
}

/// Digits alone are the integer they spell.
pub proof fn law_number_integer(d: Seq<char>)
    requires
        all_digits(d),
        d.len() > 0,
    ensures
        spec_parse_number(d) == Some(
            NumberValue::Finite { negative: false, digits: d, exponent: 0 },
        ),
{
    assert(is_digit(d[0]));
    assert(d[0] != '+' && d[0] != '-');
    lemma_not_a_word_when_first_is_digit(d);
    lemma_no_exponent_mark(d);
    lemma_find_char_absent(d, '.');
    assert(d + Seq::<char>::empty() =~= d);
}

/// Digits, `e` and digits, `m e k`, are `m × 10^k` (for exponents below
/// `exponent_cap()`).
pub proof fn law_number_exponent(m: Seq<char>, k: Seq<char>)
    requires
        all_digits(m),
        m.len() > 0,
        all_digits(k),
        k.len() > 0,
        digits_value(k) < exponent_cap(),
    ensures
        spec_parse_number(m + seq!['e'] + k) == Some(
            NumberValue::Finite { negative: false, digits: m, exponent: digits_value(k) },
        ),
{
    let s = m + seq!['e'] + k;
    assert(s[0] == m[0]);
    assert(is_digit(s[0]));
    assert(s[0] != '+' && s[0] != '-');
    assert(sign_and_body(s) == (false, s));
    lemma_not_a_word_when_first_is_digit(s);
    assert forall|j: int| 0 <= j < m.len() implies !is_exponent_mark(s[j]) by {
        assert(s[j] == m[j]);
    }
    lemma_find_exponent_mark_found(s, m.len() as int);
    assert(s.take(m.len() as int) =~= m);
    assert(s.skip(m.len() as int + 1) =~= k);
    assert(is_digit(k[0]));
    assert(k[0] != '+' && k[0] != '-');
    assert(sign_and_body(k) == (false, k));
    lemma_find_char_absent(m, '.');
    lemma_digits_value_nonneg(k);
    assert(m + Seq::<char>::empty() =~= m);
}

/// `inf`, `infinity` and `nan` are read in any case.
pub proof fn law_number_words()
    ensures
        spec_parse_number(seq!['i', 'n', 'f']) == Some(NumberValue::Infinite { negative: false }),
        spec_parse_number(seq!['I', 'n', 'F']) == Some(NumberValue::Infinite { negative: false }),
        spec_parse_number(seq!['I', 'N', 'F', 'I', 'N', 'I', 'T', 'Y']) == Some(
            NumberValue::Infinite { negative: false },
        ),
        spec_parse_number(seq!['N', 'a', 'N']) == Some(NumberValue::NaN { negative: false }),
{
}

} // verus!
