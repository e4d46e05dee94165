//! Character-level helpers shared by the parsers and formatters.

use vstd::prelude::*;
use vstd::string::StrSliceExecFns;
use vstd::string::StringExecFns;

verus! {

/// The character for a decimal digit.
pub open spec fn digit_char(d: nat) -> char {
    ((48 + d) as u8) as char
}

/// Decimal notation of a natural number, without leading zeros.
pub open spec fn dec_digits(n: nat) -> Seq<char>
    decreases n,
{
    if n < 10 {
        seq![digit_char(n)]
    } else {
        dec_digits(n / 10).push(digit_char(n % 10))
    }
}

/// Whether `c` is an ASCII decimal digit.
pub open spec fn is_digit(c: char) -> bool {
    '0' <= c && c <= '9'
}

/// The value of an ASCII decimal digit.
pub open spec fn digit_value(c: char) -> nat {
    (c as u32 - '0' as u32) as nat
}

/// Whether the `pat` occurs in `s` at position `i`.
pub open spec fn occurs_at(s: Seq<char>, pat: Seq<char>, i: int) -> bool {
    0 <= i && i + pat.len() <= s.len() && s.subrange(i, i + pat.len()) == pat
}

pub open spec fn starts_with(s: Seq<char>, pat: Seq<char>) -> bool {
    occurs_at(s, pat, 0)
}

pub open spec fn ends_with(s: Seq<char>, pat: Seq<char>) -> bool {
    pat.len() <= s.len() && occurs_at(s, pat, s.len() - pat.len())
}

/// Whether `pat` occurs anywhere in `s`.
pub open spec fn contains_seq(s: Seq<char>, pat: Seq<char>) -> bool {
    exists|i: int| occurs_at(s, pat, i)
}

/// The position of the first occurrence of `pat` in `s`, if any.
pub open spec fn first_occurrence(s: Seq<char>, pat: Seq<char>) -> Option<int> {
    if exists|i: int| #[trigger] occurs_at(s, pat, i) {
        Some(choose|i: int| #[trigger] occurs_at(s, pat, i) && forall|j: int| 0 <= j < i ==> !occurs_at(s, pat, j))
    } else {
        None
    }
}

/// Relies on String::push: appends one character.
#[verifier::external_body]
pub(crate) fn push_char(s: &mut String, c: char)
    ensures
        final(s)@ == old(s)@.push(c),
{
    s.push(c);
}

/// Appends `t` to `s`.
pub fn push_str(s: &mut String, t: &str)
    ensures
        final(s)@ == old(s)@ + t@,
{
    s.append(t);
}

/// The characters of `s`.
pub fn chars_of(s: &str) -> (v: Vec<char>)
    ensures
        v@ == s@,
{
    let n = s.unicode_len();
    let mut v: Vec<char> = Vec::new();
    let mut i: usize = 0;
    while i < n
        invariant
            n == s@.len(),
            i <= n,
            v@ == s@.subrange(0, i as int),
        decreases n - i,
    {
        v.push(s.get_char(i));
        i += 1;
    }
    assert(v@ == s@);
    v
}

/// The string made of `v[from..to]`.
pub fn string_of_range(v: &Vec<char>, from: usize, to: usize) -> (s: String)
    requires
        from <= to <= v@.len(),
    ensures
        s@ == v@.subrange(from as int, to as int),
{
    let mut s = String::new();
    let mut i: usize = from;
    while i < to
        invariant
            from <= i <= to <= v@.len(),
            s@ == v@.subrange(from as int, i as int),
        decreases to - i,
    {
        push_char(&mut s, v[i]);
        i += 1;
    }
    s
}

/// The string made of all of `v`.
pub fn string_of(v: &Vec<char>) -> (s: String)
    ensures
        s@ == v@,
{
    let s = string_of_range(v, 0, v.len());
    assert(v@.subrange(0, v@.len() as int) == v@);
    s
}

pub fn digit_to_char(d: u128) -> (c: char)
    requires
        d < 10,
    ensures
        c == digit_char(d as nat),
{
    ((48u8 + (d as u8)) as char)
}

/// Appends the decimal notation of `n`.
pub fn push_decimal(s: &mut String, n: u128)
    ensures
        final(s)@ == old(s)@ + dec_digits(n as nat),
    decreases n,
{
    if n >= 10 {
        push_decimal(s, n / 10);
    }
    let c = digit_to_char(n % 10);
    push_char(s, c);
    assert(final(s)@ == old(s)@ + dec_digits(n as nat));
}

/// Whether `pat` occurs in `s` at position `i`.
pub fn occurs_at_exec(s: &Vec<char>, pat: &Vec<char>, i: usize) -> (r: bool)
    ensures
        r == occurs_at(s@, pat@, i as int),
{
    if i > s.len() || pat.len() > s.len() - i {
        return false;
    }
    let n = s.len();
    let mut k: usize = 0;
    while k < pat.len()
        invariant
            n == s@.len(),
            i + pat@.len() <= s@.len(),
            i <= s@.len(),
            k <= pat@.len(),
            forall|j: int| 0 <= j < k ==> s@[i + j] == pat@[j],
        decreases pat@.len() - k,
    {
        if s[i + k] != pat[k] {
            assert(s@.subrange(i as int, i + pat@.len())[k as int] != pat@[k as int]);
            return false;
        }
        k += 1;
    }
    assert(s@.subrange(i as int, i + pat@.len()) =~= pat@);
    true
}

/// The position of the first occurrence of `pat` in `s`.
pub fn find_seq(s: &Vec<char>, pat: &Vec<char>) -> (r: Option<usize>)
    ensures
        r matches Some(i) ==> occurs_at(s@, pat@, i as int) && forall|j: int|
            0 <= j < i ==> !occurs_at(s@, pat@, j),
        r is None ==> forall|j: int| !occurs_at(s@, pat@, j),
        r matches Some(i) ==> first_occurrence(s@, pat@) == Some(i as int),
        r is None ==> first_occurrence(s@, pat@) is None,
{
    let mut i: usize = 0;
    loop
        invariant
            i <= s@.len(),
            forall|j: int| 0 <= j < i ==> !occurs_at(s@, pat@, j),
        ensures
            forall|j: int| 0 <= j <= s@.len() ==> !occurs_at(s@, pat@, j),
        decreases s@.len() - i,
    {
        if occurs_at_exec(s, pat, i) {
            let ghost w = choose|w: int| #[trigger] occurs_at(s@, pat@, w) && forall|j: int| 0 <= j < w ==> !occurs_at(s@, pat@, j);
            proof {
                assert(occurs_at(s@, pat@, i as int) && forall|j: int| 0 <= j < i ==> !occurs_at(s@, pat@, j));
                if w < i { assert(!occurs_at(s@, pat@, w)); }
                if w > i { assert(!occurs_at(s@, pat@, i as int)); }
            }
            return Some(i);
        }
        if i == s.len() {
            break;
        }
        i += 1;
    }
    assert forall|j: int| !occurs_at(s@, pat@, j) by {
        if 0 <= j <= s@.len() {} else if j > s@.len() {}
    }
    None
}


/// The value of a sequence of decimal digits.
pub open spec fn digits_value(s: Seq<char>) -> nat
    decreases s.len(),
{
    if s.len() == 0 {
        0
    } else {
        digits_value(s.drop_last()) * 10 + digit_value(s.last())
    }
}

pub open spec fn all_digits(s: Seq<char>) -> bool {
    forall|i: int| 0 <= i < s.len() ==> is_digit(#[trigger] s[i])
}

/// `s` without one leading '+', if it has one.
pub open spec fn unsigned_body(s: Seq<char>) -> Seq<char> {
    if s.len() > 0 && s[0] == '+' {
        s.subrange(1, s.len() as int)
    } else {
        s
    }
}

/// What `str::parse` reads as an unsigned integer no greater than `max`:
/// an optional '+' and then one or more decimal digits whose value is at most `max`.
pub open spec fn parse_unsigned(s: Seq<char>, max: nat) -> Option<nat> {
    let body = unsigned_body(s);
    if body.len() > 0 && all_digits(body) && digits_value(body) <= max {
        Some(digits_value(body))
    } else {
        None
    }
}

/// The number `s` holds as a `u64`, or 0 when it holds none.
pub open spec fn u64_or_zero(s: Seq<char>) -> u64 {
    match parse_unsigned(s, u64::MAX as nat) {
        Some(v) => v as u64,
        None => 0,
    }
}

/// The number `s` holds as a `u32`, or 0 when it holds none.
pub open spec fn u32_or_zero(s: Seq<char>) -> u32 {
    match parse_unsigned(s, u32::MAX as nat) {
        Some(v) => v as u32,
        None => 0,
    }
}

proof fn lemma_digits_value_prefix(s: Seq<char>, k: int)
    requires
        0 <= k <= s.len(),
    ensures
        digits_value(s.subrange(0, k)) <= digits_value(s),
    decreases s.len() - k,
{
    if k < s.len() {
        lemma_digits_value_prefix(s, k + 1);
        assert(s.subrange(0, k + 1).drop_last() =~= s.subrange(0, k));
    } else {
        assert(s.subrange(0, k) =~= s);
    }
}

/// Reads an unsigned integer no greater than `max`, as `str::parse` does.
pub fn parse_bounded(s: &str, max: u64) -> (r: Option<u64>)
    ensures
        match parse_unsigned(s@, max as nat) {
            Some(v) => r == Some(v as u64),
            None => r is None,
        },
{
    let v = chars_of(s);
    let n = v.len();
    let start: usize = if n > 0 && v[0] == '+' { 1 } else { 0 };
    let ghost body = unsigned_body(s@);
    assert(body =~= v@.subrange(start as int, n as int));
    if start == n {
        return None;
    }
    let mut acc: u128 = 0;
    let mut i: usize = start;
    while i < n
        invariant
            v@ == s@,
            n == v@.len(),
            start <= i <= n,
            body == unsigned_body(s@),
            body == v@.subrange(start as int, n as int),
            forall|j: int| start <= j < i ==> is_digit(v@[j]),
            acc == digits_value(v@.subrange(start as int, i as int)),
            acc <= max,
        decreases n - i,
    {
        let c = v[i];
        if !('0' <= c && c <= '9') {
            assert(body[i - start] == c);
            assert(!is_digit(body[i - start]));
            assert(!all_digits(body));
            return None;
        }
        let d = (c as u32 - '0' as u32) as u128;
        assert(v@.subrange(start as int, i + 1).drop_last() =~= v@.subrange(start as int, i as int));
        acc = acc * 10 + d;
        if acc > max as u128 {
            proof {
                let k = i + 1 - start;
                assert(body.subrange(0, k) =~= v@.subrange(start as int, i + 1));
                lemma_digits_value_prefix(body, k);
            }
            assert(digits_value(body) > max);
            return None;
        }
        i += 1;
    }
    assert(v@.subrange(start as int, n as int) == body);
    Some(acc as u64)
}

/// Reads a `u64`, or gives 0 when `s` holds none.
pub fn parse_u64_or_zero(s: &str) -> (r: u64)
    ensures
        r == u64_or_zero(s@),
{
    match parse_bounded(s, u64::MAX) {
        Some(v) => v,
        None => 0,
    }
}

/// Reads a `u32`, or gives 0 when `s` holds none.
pub fn parse_u32_or_zero(s: &str) -> (r: u32)
    ensures
        r == u32_or_zero(s@),
{
    match parse_bounded(s, u32::MAX as u64) {
        Some(v) => v as u32,
        None => 0,
    }
}

/// The part of `s` after the last `c`; all of `s` when `c` does not occur.
pub open spec fn after_last(s: Seq<char>, c: char) -> Seq<char>
    decreases s.len(),
{
    if s.len() == 0 {
        s
    } else if s.last() == c {
        Seq::empty()
    } else {
        after_last(s.drop_last(), c).push(s.last())
    }
}

/// The part of `s` before the first `c`; all of `s` when `c` does not occur.
pub open spec fn before_first(s: Seq<char>, c: char) -> Seq<char>
    decreases s.len(),
{
    if s.len() == 0 {
        s
    } else if s[0] == c {
        Seq::empty()
    } else {
        seq![s[0]] + before_first(s.drop_first(), c)
    }
}

/// The position where the part after the last `c` starts.
pub fn after_last_start(v: &Vec<char>, c: char) -> (i: usize)
    ensures
        i <= v@.len(),
        after_last(v@, c) == v@.subrange(i as int, v@.len() as int),
{
    let n = v.len();
    let mut i: usize = n;
    assert(v@.subrange(0, n as int) =~= v@);
    while i > 0 && v[i - 1] != c
        invariant
            n == v@.len(),
            i <= n,
            after_last(v@, c) == after_last(v@.subrange(0, i as int), c) + v@.subrange(i as int, n as int),
        decreases i,
    {
        let ghost p = v@.subrange(0, i as int);
        assert(p.drop_last() =~= v@.subrange(0, i - 1));
        assert(v@.subrange(i - 1, n as int) =~= seq![v@[i - 1]] + v@.subrange(i as int, n as int));
        assert(after_last(p, c) == after_last(p.drop_last(), c).push(p.last()));
        assert(after_last(p.drop_last(), c).push(p.last()) + v@.subrange(i as int, n as int)
            =~= after_last(p.drop_last(), c) + v@.subrange(i - 1, n as int));
        i -= 1;
    }
    if i > 0 {
        let ghost p = v@.subrange(0, i as int);
        assert(p.last() == c);
    }
    assert(after_last(v@.subrange(0, i as int), c) =~= Seq::<char>::empty());
    assert(Seq::<char>::empty() + v@.subrange(i as int, n as int) =~= v@.subrange(i as int, n as int));
    i
}

/// The position where the part before the first `c` ends.
pub fn before_first_end(v: &Vec<char>, c: char) -> (i: usize)
    ensures
        i <= v@.len(),
        before_first(v@, c) == v@.subrange(0, i as int),
{
    let n = v.len();
    let mut i: usize = 0;
    assert(v@.subrange(0, n as int) =~= v@);
    while i < n && v[i] != c
        invariant
            n == v@.len(),
            i <= n,
            before_first(v@, c) == v@.subrange(0, i as int) + before_first(v@.subrange(i as int, n as int), c),
        decreases n - i,
    {
        let ghost p = v@.subrange(i as int, n as int);
        assert(p.drop_first() =~= v@.subrange(i + 1, n as int));
        assert(v@.subrange(0, i + 1) =~= v@.subrange(0, i as int) + seq![v@[i as int]]);
        i += 1;
    }
    assert(before_first(v@.subrange(i as int, n as int), c) =~= Seq::<char>::empty());
    assert(v@.subrange(0, i as int) + Seq::<char>::empty() =~= v@.subrange(0, i as int));
    i
}


/// What `str::to_uppercase` gives for these characters.
pub uninterp spec fn upper_of(s: Seq<char>) -> Seq<char>;

/// What `str::to_lowercase` gives for these characters.
pub uninterp spec fn lower_of(s: Seq<char>) -> Seq<char>;

/// Whether `char::is_alphabetic` holds of `c`.
pub uninterp spec fn alphabetic(c: char) -> bool;

/// Whether every character is ASCII.
pub open spec fn ascii_text(s: Seq<char>) -> bool {
    forall|i: int| 0 <= i < s.len() ==> (#[trigger] s[i] as u32) < 128
}

/// An ASCII letter in lower case; any other character unchanged.
pub open spec fn ascii_lower_char(c: char) -> char {
    if 'A' <= c && c <= 'Z' {
        ((c as u32 + 32) as u8) as char
    } else {
        c
    }
}

/// An ASCII letter in upper case; any other character unchanged.
pub open spec fn ascii_upper_char(c: char) -> char {
    if 'a' <= c && c <= 'z' {
        ((c as u32 - 32) as u8) as char
    } else {
        c
    }
}

/// Whether `c` is an ASCII letter.
pub open spec fn ascii_letter(c: char) -> bool {
    ('a' <= c && c <= 'z') || ('A' <= c && c <= 'Z')
}

/// Upper-casing as `str::to_uppercase` does it: on ASCII text the letters alone change.
pub open spec fn uppercase(s: Seq<char>) -> Seq<char> {
    if ascii_text(s) {
        s.map_values(|c: char| ascii_upper_char(c))
    } else {
        upper_of(s)
    }
}

/// Lower-casing as `str::to_lowercase` does it: on ASCII text the letters alone change.
pub open spec fn lowercase(s: Seq<char>) -> Seq<char> {
    if ascii_text(s) {
        s.map_values(|c: char| ascii_lower_char(c))
    } else {
        lower_of(s)
    }
}

/// Whether `char::is_alphabetic` holds of `c`: among ASCII characters, for the letters.
pub open spec fn letter(c: char) -> bool {
    if (c as u32) < 128 {
        ascii_letter(c)
    } else {
        alphabetic(c)
    }
}

/// Relies on str::to_uppercase: Unicode upper-casing, a function of the characters alone;
/// on ASCII text it upper-cases the letters and keeps everything else.
#[verifier::external_body]
pub(crate) fn to_upper(s: &str) -> (r: String)
    ensures
        r@ == upper_of(s@),
        r@ == uppercase(s@),
{
    s.to_uppercase()
}

/// Relies on str::to_lowercase: Unicode lower-casing, a function of the characters alone;
/// on ASCII text it lower-cases the letters and keeps everything else.
#[verifier::external_body]
pub(crate) fn to_lower(s: &str) -> (r: String)
    ensures
        r@ == lower_of(s@),
        r@ == lowercase(s@),
{
    s.to_lowercase()
}

/// Relies on char::is_alphabetic: the Unicode Alphabetic property, which among ASCII
/// characters the letters alone have.
#[verifier::external_body]
pub(crate) fn is_alphabetic(c: char) -> (r: bool)
    ensures
        r == alphabetic(c),
        r == letter(c),
{
    c.is_alphabetic()
}

/// Whether two strings hold the same characters.
pub fn str_eq(a: &str, b: &str) -> (r: bool)
    ensures
        r == (a@ == b@),
{
    let x = chars_of(a);
    let y = chars_of(b);
    if x.len() != y.len() {
        return false;
    }
    let mut i: usize = 0;
    while i < x.len()
        invariant
            x@ == a@,
            y@ == b@,
            x@.len() == y@.len(),
            i <= x@.len(),
            forall|j: int| 0 <= j < i ==> x@[j] == y@[j],
        decreases x@.len() - i,
    {
        if x[i] != y[i] {
            return false;
        }
        i += 1;
    }
    assert(x@ =~= y@);
    true
}

/// 10 to the power `places`, for up to two decimal places.
pub open spec fn scale(places: nat) -> nat {
    if places == 0 {
        1
    } else if places == 1 {
        10
    } else {
        100
    }
}

/// `n / unit` in units of `10^-places`, rounded to the nearest, ties to even.
pub open spec fn scaled_rounded(n: nat, unit: nat, places: nat) -> nat
    recommends
        unit > 0,
{
    let num = n * scale(places);
    let q = num / unit;
    let r = num % unit;
    if 2 * r > unit || (2 * r == unit && q % 2 == 1) {
        q + 1
    } else {
        q
    }
}

/// The last `width` decimal digits of `m`, with leading zeros.
pub open spec fn padded_digits(m: nat, width: nat) -> Seq<char>
    decreases width,
{
    if width == 0 {
        Seq::empty()
    } else {
        padded_digits(m / 10, (width - 1) as nat).push(digit_char(m % 10))
    }
}

/// `n / unit` written with `places` decimal places.
pub open spec fn fixed_text(n: nat, unit: nat, places: nat) -> Seq<char> {
    let q = scaled_rounded(n, unit, places);
    if places == 0 {
        dec_digits(q)
    } else {
        dec_digits(q / scale(places)) + seq!['.'] + padded_digits(q % scale(places), places)
    }
}

fn push_padded(s: &mut String, m: u128, width: u32)
    ensures
        final(s)@ == old(s)@ + padded_digits(m as nat, width as nat),
    decreases width,
{
    if width > 0 {
        push_padded(s, m / 10, width - 1);
        let c = digit_to_char(m % 10);
        push_char(s, c);
    }
    assert(final(s)@ =~= old(s)@ + padded_digits(m as nat, width as nat));
}

/// Appends `n / unit` written with `places` decimal places.
pub fn push_fixed(s: &mut String, n: u64, unit: u64, places: u32)
    requires
        unit > 0,
        places <= 2,
    ensures
        final(s)@ == old(s)@ + fixed_text(n as nat, unit as nat, places as nat),
{
    let sc: u128 = if places == 0 { 1 } else if places == 1 { 10 } else { 100 };
    assert(sc == scale(places as nat));
    assert(n as u128 * sc <= 100 * 0xffff_ffff_ffff_ffffu128) by (nonlinear_arith)
        requires sc <= 100, n <= 0xffff_ffff_ffff_ffffu64;
    let num: u128 = n as u128 * sc;
    let q0: u128 = num / unit as u128;
    let r: u128 = num % unit as u128;
    assert(q0 <= num) by (nonlinear_arith) requires q0 == num / (unit as u128), unit >= 1;
    let q: u128 = if 2 * r > unit as u128 || (2 * r == unit as u128 && q0 % 2 == 1) { q0 + 1 } else { q0 };
    assert(q == scaled_rounded(n as nat, unit as nat, places as nat));
    if places == 0 {
        push_decimal(s, q);
    } else {
        push_decimal(s, q / sc);
        push_char(s, '.');
        push_padded(s, q % sc, places);
        assert(final(s)@ =~= old(s)@ + fixed_text(n as nat, unit as nat, places as nat));
    }
}


/// A copy of `v[from..to]`.
pub fn subvec(v: &Vec<char>, from: usize, to: usize) -> (r: Vec<char>)
    requires
        from <= to <= v@.len(),
    ensures
        r@ == v@.subrange(from as int, to as int),
{
    let mut r: Vec<char> = Vec::new();
    let mut i: usize = from;
    while i < to
        invariant
            from <= i <= to <= v@.len(),
            r@ == v@.subrange(from as int, i as int),
        decreases to - i,
    {
        r.push(v[i]);
        i += 1;
    }
    r
}

/// Whether `s` starts with `p`.
pub fn has_prefix(s: &str, p: &str) -> (r: bool)
    ensures
        r == starts_with(s@, p@),
{
    let v = chars_of(s);
    let w = chars_of(p);
    occurs_at_exec(&v, &w, 0)
}

/// Whether `s` ends with `p`.
pub fn has_suffix(s: &str, p: &str) -> (r: bool)
    ensures
        r == ends_with(s@, p@),
{
    let v = chars_of(s);
    let w = chars_of(p);
    if w.len() > v.len() {
        return false;
    }
    occurs_at_exec(&v, &w, v.len() - w.len())
}


/// `mult` times the fraction written by the digits `f` (as in "0.f"), rounded down;
/// computed digit by digit from the last, by Horner's rule.
pub open spec fn frac_scaled(f: Seq<char>, mult: nat) -> nat
    decreases f.len(),
{
    if f.len() == 0 {
        0
    } else {
        (digit_value(f[0]) * mult + frac_scaled(f.drop_first(), mult)) / 10
    }
}

/// A plain decimal number: digits with at most one '.', and at least one digit.
/// Gives the digits before and after the point.
pub open spec fn decimal_parts(num: Seq<char>) -> Option<(Seq<char>, Seq<char>)> {
    let whole = before_first(num, '.');
    let frac = if whole.len() < num.len() {
        num.subrange(whole.len() as int + 1, num.len() as int)
    } else {
        Seq::empty()
    };
    if all_digits(whole) && all_digits(frac) && whole.len() + frac.len() > 0 {
        Some((whole, frac))
    } else {
        None
    }
}

/// The decimal number `num` times `mult`, rounded down, or `u64::MAX` when larger.
pub open spec fn scaled_decimal(num: Seq<char>, mult: nat) -> Option<nat> {
    match decimal_parts(num) {
        Some((whole, frac)) => Some(
            if digits_value(whole) * mult + frac_scaled(frac, mult) > u64::MAX {
                u64::MAX as nat
            } else {
                digits_value(whole) * mult + frac_scaled(frac, mult)
            },
        ),
        None => None,
    }
}

fn digits_valid(v: &Vec<char>, from: usize, to: usize) -> (r: bool)
    requires
        from <= to <= v@.len(),
    ensures
        r == all_digits(v@.subrange(from as int, to as int)),
{
    let mut i: usize = from;
    while i < to
        invariant
            from <= i <= to <= v@.len(),
            forall|j: int| from <= j < i ==> is_digit(v@[j]),
        decreases to - i,
    {
        if !('0' <= v[i] && v[i] <= '9') {
            assert(!is_digit(v@.subrange(from as int, to as int)[i - from]));
            return false;
        }
        i += 1;
    }
    assert forall|j: int| 0 <= j < to - from implies is_digit(#[trigger] v@.subrange(from as int, to as int)[j]) by {
        assert(v@.subrange(from as int, to as int)[j] == v@[from + j]);
    }
    true
}

proof fn lemma_cap_step(v: nat, acc: nat, d: nat, cap: nat)
    requires
        acc == if v >= cap { cap } else { v },
        d < 10,
        cap > 0,
    ensures
        (if acc * 10 + d >= cap { cap } else { acc * 10 + d }) == (if v * 10 + d >= cap { cap } else { v * 10 + d }),
{
    if v >= cap {
        assert(v * 10 + d >= cap) by (nonlinear_arith) requires v >= cap;
        assert(acc * 10 + d >= cap) by (nonlinear_arith) requires acc == cap, cap > 0;
    }
}

/// The value of the digits `v[from..to]`, or `cap` when it is `cap` or more.
fn digits_capped(v: &Vec<char>, from: usize, to: usize, cap: u128) -> (r: u128)
    requires
        from <= to <= v@.len(),
        all_digits(v@.subrange(from as int, to as int)),
        0 < cap < 0x1_0000_0000_0000_0000_0000_0000u128,
    ensures
        r == if digits_value(v@.subrange(from as int, to as int)) >= cap {
            cap as nat
        } else {
            digits_value(v@.subrange(from as int, to as int))
        },
{
    let mut acc: u128 = 0;
    let mut i: usize = from;
    while i < to
        invariant
            from <= i <= to <= v@.len(),
            all_digits(v@.subrange(from as int, to as int)),
            0 < cap < 0x1_0000_0000_0000_0000_0000_0000u128,
            acc == if digits_value(v@.subrange(from as int, i as int)) >= cap {
                cap as nat
            } else {
                digits_value(v@.subrange(from as int, i as int))
            },
        decreases to - i,
    {
        assert(v@.subrange(from as int, to as int)[i - from] == v@[i as int]);
        let d = (v[i] as u32 - '0' as u32) as u128;
        let ghost pre = v@.subrange(from as int, i as int);
        let ghost next = v@.subrange(from as int, i + 1);
        assert(next.drop_last() =~= pre);
        proof {
            lemma_cap_step(digits_value(pre), acc as nat, d as nat, cap as nat);
        }
        acc = if acc * 10 + d >= cap { cap } else { acc * 10 + d };
        i += 1;
    }
    acc
}

/// `mult` times the fraction written by the digits `v[from..to]`, rounded down.
fn frac_scaled_exec(v: &Vec<char>, from: usize, to: usize, mult: u64) -> (r: u128)
    requires
        from <= to <= v@.len(),
        all_digits(v@.subrange(from as int, to as int)),
        mult > 0,
    ensures
        r == frac_scaled(v@.subrange(from as int, to as int), mult as nat),
        r < mult,
{
    let mut acc: u128 = 0;
    let mut j: usize = to;
    while j > from
        invariant
            from <= j <= to <= v@.len(),
            all_digits(v@.subrange(from as int, to as int)),
            mult > 0,
            acc == frac_scaled(v@.subrange(j as int, to as int), mult as nat),
            acc < mult,
        decreases j - from,
    {
        assert(v@.subrange(from as int, to as int)[j - 1 - from] == v@[j - 1]);
        let d = (v[j - 1] as u32 - '0' as u32) as u128;
        assert(v@.subrange(j - 1, to as int).drop_first() =~= v@.subrange(j as int, to as int));
        assert(v@.subrange(j - 1, to as int)[0] == v@[j - 1]);
        assert(d * (mult as u128) + acc < 10 * (mult as u128)) by (nonlinear_arith)
            requires d <= 9, acc < mult;
        let next = (d * (mult as u128) + acc) / 10;
        assert(next < mult) by (nonlinear_arith)
            requires next == (d * (mult as u128) + acc) / 10, d * (mult as u128) + acc < 10 * (mult as u128);
        acc = next;
        j -= 1;
    }
    acc
}

/// Reads the plain decimal number `num` and scales it by `mult` (see [`scaled_decimal`]).
pub fn scale_decimal(num: &Vec<char>, mult: u64) -> (r: Option<u64>)
    requires
        mult > 0,
    ensures
        match scaled_decimal(num@, mult as nat) {
            Some(v) => r == Some(v as u64),
            None => r is None,
        },
{
    let n = num.len();
    let w = before_first_end(num, '.');
    let (fs, fe): (usize, usize) = if w < n { (w + 1, n) } else { (n, n) };
    let ghost whole = num@.subrange(0, w as int);
    let ghost frac = num@.subrange(fs as int, fe as int);
    assert(before_first(num@, '.') == whole);
    if w >= n {
        assert(frac =~= Seq::<char>::empty());
    }
    if !digits_valid(num, 0, w) || !digits_valid(num, fs, fe) || w + (fe - fs) == 0 {
        return None;
    }
    let cap: u128 = 0x1_0000_0000_0000_0000u128;
    let iv = digits_capped(num, 0, w, cap);
    let fv = frac_scaled_exec(num, fs, fe, mult);
    assert(iv * (mult as u128) + fv <= cap * 0xffff_ffff_ffff_ffffu128 + 0xffff_ffff_ffff_ffffu128) by (nonlinear_arith)
        requires iv <= cap, mult <= 0xffff_ffff_ffff_ffffu64, fv < mult;
    let total = iv * (mult as u128) + fv;
    proof {
        let dv = digits_value(whole);
        if dv >= cap {
            assert(dv * mult + fv > u64::MAX) by (nonlinear_arith) requires dv >= cap, mult >= 1, cap == 0x1_0000_0000_0000_0000u128;
            assert(iv * mult + fv > u64::MAX) by (nonlinear_arith) requires iv == cap, mult >= 1, cap == 0x1_0000_0000_0000_0000u128;
        }
    }
    if total > u64::MAX as u128 {
        Some(u64::MAX)
    } else {
        Some(total as u64)
    }
}


/// A character of the number in a typed rate: a digit or a point.
pub open spec fn is_num_char(c: char) -> bool {
    is_digit(c) || c == '.'
}

/// A character of the unit in a typed rate: a letter.
pub open spec fn is_unit_char(c: char) -> bool {
    !is_num_char(c) && letter(c)
}

/// The digits and points before the first letter.
pub open spec fn number_chars(s: Seq<char>) -> Seq<char>
    decreases s.len(),
{
    if s.len() == 0 {
        s
    } else if is_unit_char(s[0]) {
        Seq::empty()
    } else if is_num_char(s[0]) {
        seq![s[0]] + number_chars(s.drop_first())
    } else {
        number_chars(s.drop_first())
    }
}

/// All the letters.
pub open spec fn unit_chars(s: Seq<char>) -> Seq<char>
    decreases s.len(),
{
    if s.len() == 0 {
        s
    } else if is_unit_char(s[0]) {
        seq![s[0]] + unit_chars(s.drop_first())
    } else {
        unit_chars(s.drop_first())
    }
}

/// Splits a typed rate into its number (the digits and points before the first letter)
/// and its unit (all letters); other characters are skipped.
pub fn split_rate(v: &Vec<char>) -> (r: (Vec<char>, Vec<char>))
    ensures
        r.0@ == number_chars(v@),
        r.1@ == unit_chars(v@),
{
    let n = v.len();
    let mut num: Vec<char> = Vec::new();
    let mut unit: Vec<char> = Vec::new();
    let mut in_unit = false;
    let mut i: usize = 0;
    assert(v@.subrange(0, n as int) =~= v@);
    while i < n
        invariant
            n == v@.len(),
            i <= n,
            in_unit ==> number_chars(v@) == num@,
            !in_unit ==> number_chars(v@) == num@ + number_chars(v@.subrange(i as int, n as int)),
            unit_chars(v@) == unit@ + unit_chars(v@.subrange(i as int, n as int)),
        decreases n - i,
    {
        let c = v[i];
        let ghost rest = v@.subrange(i as int, n as int);
        assert(rest.drop_first() =~= v@.subrange(i + 1, n as int));
        assert(rest[0] == c);
        let ghost num0 = num@;
        let ghost unit0 = unit@;
        if ('0' <= c && c <= '9') || c == '.' {
            if !in_unit {
                num.push(c);
                assert(num0 + (seq![c] + number_chars(rest.drop_first())) =~= num@ + number_chars(rest.drop_first()));
            }
        } else if is_alphabetic(c) {
            if !in_unit {
                assert(num0 + Seq::<char>::empty() =~= num0);
            }
            in_unit = true;
            unit.push(c);
            assert(unit0 + (seq![c] + unit_chars(rest.drop_first())) =~= unit@ + unit_chars(rest.drop_first()));
        }
        i += 1;
    }
    assert(v@.subrange(n as int, n as int) =~= Seq::<char>::empty());
    assert(num@ + Seq::<char>::empty() =~= num@);
    assert(unit@ + Seq::<char>::empty() =~= unit@);
    (num, unit)
}

/// The multiplier a unit gives: by its first letter g, m or k, a binary giga, mega or
/// kilo; `bare` without a unit; bytes for any other unit.
pub open spec fn unit_multiplier(unit: Seq<char>, bare: nat) -> nat {
    if unit.len() > 0 && unit[0] == 'g' {
        1073741824
    } else if unit.len() > 0 && unit[0] == 'm' {
        1048576
    } else if unit.len() > 0 && unit[0] == 'k' {
        1024
    } else if unit.len() == 0 {
        bare
    } else {
        1
    }
}

/// A typed rate in bytes per second: its number times its unit's multiplier (see
/// [`scaled_decimal`]); `None` when the number is not a plain decimal.
pub open spec fn rate_value(lower: Seq<char>, bare: nat) -> Option<nat> {
    scaled_decimal(number_chars(lower), unit_multiplier(unit_chars(lower), bare))
}

/// Reads a typed rate already lower-cased, with `bare` the multiplier when no unit is given.
pub fn read_rate(lower: &str, bare: u64) -> (r: Option<u64>)
    requires
        bare > 0,
    ensures
        match rate_value(lower@, bare as nat) {
            Some(v) => r == Some(v as u64),
            None => r is None,
        },
{
    let v = chars_of(lower);
    let (num, unit) = split_rate(&v);
    let mult: u64 = if unit.len() > 0 && unit[0] == 'g' {
        1073741824
    } else if unit.len() > 0 && unit[0] == 'm' {
        1048576
    } else if unit.len() > 0 && unit[0] == 'k' {
        1024
    } else if unit.len() == 0 {
        bare
    } else {
        1
    };
    scale_decimal(&num, mult)
}


/// Whether `pat` occurs in `s`.
pub fn contains_str(s: &str, pat: &str) -> (r: bool)
    ensures
        r == contains_seq(s@, pat@),
{
    let v = chars_of(s);
    let w = chars_of(pat);
    match find_seq(&v, &w) {
        Some(_) => true,
        None => false,
    }
}


/// White space as Unicode defines it (the White_Space property, as `char::is_whitespace`
/// tests it).
pub open spec fn whitespace(c: char) -> bool {
    ('\u{9}' <= c && c <= '\u{d}') || c == ' ' || c == '\u{85}' || c == '\u{a0}' || c == '\u{1680}'
        || ('\u{2000}' <= c && c <= '\u{200a}') || c == '\u{2028}' || c == '\u{2029}' || c == '\u{202f}'
        || c == '\u{205f}' || c == '\u{3000}'
}

/// Whether `c` is white space.
pub fn is_whitespace(c: char) -> (r: bool)
    ensures
        r == whitespace(c),
{
    ('\u{9}' <= c && c <= '\u{d}') || c == ' ' || c == '\u{85}' || c == '\u{a0}' || c == '\u{1680}'
        || ('\u{2000}' <= c && c <= '\u{200a}') || c == '\u{2028}' || c == '\u{2029}' || c == '\u{202f}'
        || c == '\u{205f}' || c == '\u{3000}'
}

/// `s` without its leading white space.
pub open spec fn skip_space(s: Seq<char>) -> Seq<char>
    decreases s.len(),
{
    if s.len() > 0 && whitespace(s[0]) {
        skip_space(s.drop_first())
    } else {
        s
    }
}

/// `s` without its trailing white space.
pub open spec fn trim_end(s: Seq<char>) -> Seq<char>
    decreases s.len(),
{
    if s.len() > 0 && whitespace(s.last()) {
        trim_end(s.drop_last())
    } else {
        s
    }
}

/// `s` without leading and trailing white space.
pub open spec fn trimmed(s: Seq<char>) -> Seq<char> {
    trim_end(skip_space(s))
}

/// The text without leading and trailing white space.
pub fn trim(s: &str) -> (r: String)
    ensures
        r@ == trimmed(s@),
{
    let v = chars_of(s);
    let n = v.len();
    let mut a: usize = 0;
    assert(v@.subrange(0, n as int) =~= v@);
    while a < n && is_whitespace(v[a])
        invariant
            n == v@.len(),
            a <= n,
            skip_space(v@) == skip_space(v@.subrange(a as int, n as int)),
        decreases n - a,
    {
        assert(v@.subrange(a as int, n as int).drop_first() =~= v@.subrange(a + 1, n as int));
        a += 1;
    }
    let mut b: usize = n;
    assert(v@.subrange(a as int, n as int) =~= v@.subrange(a as int, b as int));
    while b > a && is_whitespace(v[b - 1])
        invariant
            n == v@.len(),
            a <= b <= n,
            trim_end(v@.subrange(a as int, n as int)) == trim_end(v@.subrange(a as int, b as int)),
        decreases b,
    {
        assert(v@.subrange(a as int, b as int).drop_last() =~= v@.subrange(a as int, b - 1));
        b -= 1;
    }
    string_of_range(&v, a, b)
}

} // verus!
