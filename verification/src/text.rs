//! Text as sequences of characters: prefix, suffix and substring search,
//! and decimal numbers.

use vstd::prelude::*;
use vstd::std_specs::iter::IteratorSpec;
use vstd::string::StringSliceAdditionalSpecFns;
use vstd::utf8::{
    decode_utf8, decode_utf8_split, encode_utf8, encode_utf8_decode_utf8, encode_utf8_valid_utf8,
    is_char_boundary,
};

verus! {

/// `String::push` appends one character at the end.
pub assume_specification[ String::push ](s: &mut String, c: char)
    ensures
        final(s)@ == old(s)@.push(c),
;

/// `p` stands in `s` at index `i`.
pub open spec fn occurs_at(s: Seq<char>, p: Seq<char>, i: int) -> bool {
    0 <= i && i + p.len() <= s.len() && s.subrange(i, i + p.len()) == p
}

/// `s` begins with `p`.
pub open spec fn starts_with(s: Seq<char>, p: Seq<char>) -> bool {
    occurs_at(s, p, 0)
}

/// `s` ends with `p`.
pub open spec fn ends_with(s: Seq<char>, p: Seq<char>) -> bool {
    occurs_at(s, p, s.len() - p.len())
}

/// The least index at or after `from` at which `p` stands in `s`.
pub open spec fn find_from(s: Seq<char>, p: Seq<char>, from: int) -> Option<int>
    decreases s.len() + 1 - from,
{
    if from < 0 || from + p.len() > s.len() {
        None
    } else if occurs_at(s, p, from) {
        Some(from)
    } else {
        find_from(s, p, from + 1)
    }
}

/// The least index at which `p` stands in `s`.
pub open spec fn first_occurrence(s: Seq<char>, p: Seq<char>) -> Option<int> {
    find_from(s, p, 0)
}

/// `find_from` returns an occurrence, and no occurrence lies between `from`
/// and what it returns.
pub proof fn lemma_find_from(s: Seq<char>, p: Seq<char>, from: int)
    requires
        0 <= from,
    ensures
        match find_from(s, p, from) {
            Some(i) => from <= i && occurs_at(s, p, i) && forall|j: int|
                from <= j < i ==> !occurs_at(s, p, j),
            None => forall|j: int| from <= j ==> !occurs_at(s, p, j),
        },
    decreases s.len() + 1 - from,
{
    if from + p.len() > s.len() {
    } else if occurs_at(s, p, from) {
    } else {
        lemma_find_from(s, p, from + 1);
    }
}

/// An occurrence with none before it is the first one.
pub proof fn lemma_first_occurrence_is(s: Seq<char>, p: Seq<char>, i: int)
    requires
        occurs_at(s, p, i),
        forall|j: int| 0 <= j < i ==> !occurs_at(s, p, j),
    ensures
        first_occurrence(s, p) == Some(i),
{
    lemma_find_from(s, p, 0);
}

/// The characters of `s`, in order.
pub fn to_chars(s: &str) -> (v: Vec<char>)
    ensures
        v@ == s@,
{
    let mut v: Vec<char> = Vec::new();
    for c in it: s.chars()
        invariant
            v@ == it.seq().take(it.index()),
            it.seq() == s@,
    {
        v.push(c);
    }
    v
}

/// The string made of the characters `v[from..to]`.
pub fn from_chars(v: &Vec<char>, from: usize, to: usize) -> (s: String)
    requires
        from <= to <= v.len(),
    ensures
        s@ == v@.subrange(from as int, to as int),
{
    let mut s = String::new();
    let mut i: usize = from;
    while i < to
        invariant
            from <= i <= to <= v.len(),
            s@ == v@.subrange(from as int, i as int),
        decreases to - i,
    {
        s.push(v[i]);
        i += 1;
    }
    s
}

/// Whether `p` stands in `v` at index `at`.
pub fn matches_at(v: &Vec<char>, p: &Vec<char>, at: usize) -> (r: bool)
    ensures
        r == occurs_at(v@, p@, at as int),
{
    if p.len() > v.len() || at > v.len() - p.len() {
        return false;
    }
    let mut k: usize = 0;
    while k < p.len()
        invariant
            at + p.len() <= v.len(),
            k <= p.len(),
            forall|j: int| 0 <= j < k ==> v@[at + j] == p@[j],
        decreases p.len() - k,
    {
        if v[at + k] != p[k] {
            assert(v@.subrange(at as int, at + p.len())[k as int] == v@[at + k]);
            return false;
        }
        k += 1;
    }
    assert(v@.subrange(at as int, at + p.len()) =~= p@);
    true
}

/// Whether `v` begins with `p`.
pub fn has_prefix(v: &Vec<char>, p: &Vec<char>) -> (r: bool)
    ensures
        r == starts_with(v@, p@),
{
    matches_at(v, p, 0)
}

/// Whether `v` ends with `p`.
pub fn has_suffix(v: &Vec<char>, p: &Vec<char>) -> (r: bool)
    ensures
        r == ends_with(v@, p@),
{
    if p.len() > v.len() {
        return false;
    }
    matches_at(v, p, v.len() - p.len())
}

/// Whether `v` and `p` hold the same characters.
pub fn same_text(v: &Vec<char>, p: &Vec<char>) -> (r: bool)
    ensures
        r == (v@ == p@),
{
    if v.len() != p.len() {
        return false;
    }
    let r = matches_at(v, p, 0);
    assert(v@.subrange(0, v@.len() as int) =~= v@);
    r
}

/// The least index at or after `from` at which `p` stands in `v`.
pub fn find_after(v: &Vec<char>, p: &Vec<char>, from: usize) -> (r: Option<usize>)
    ensures
        match r {
            Some(i) => find_from(v@, p@, from as int) == Some(i as int) && from <= i && i + p.len()
                <= v.len(),
            None => find_from(v@, p@, from as int) is None,
        },
{
    if p.len() > v.len() || from > v.len() - p.len() {
        return None;
    }
    let last: usize = v.len() - p.len();
    let mut i: usize = from;
    loop
        invariant
            last == v.len() - p.len(),
            from <= i <= last,
            find_from(v@, p@, from as int) == find_from(v@, p@, i as int),
        decreases last - i,
    {
        if matches_at(v, p, i) {
            return Some(i);
        }
        if i == last {
            assert(find_from(v@, p@, i + 1) is None);
            return None;
        }
        i += 1;
    }
}

/// The least index at which `p` stands in `v`.
pub fn find(v: &Vec<char>, p: &Vec<char>) -> (r: Option<usize>)
    ensures
        match r {
            Some(i) => first_occurrence(v@, p@) == Some(i as int) && i + p.len() <= v.len(),
            None => first_occurrence(v@, p@) is None,
        },
{
    find_after(v, p, 0)
}

/// `c` is one of the ten decimal digits.
pub open spec fn is_digit(c: char) -> bool {
    '0' <= c <= '9'
}

/// The number that a decimal digit stands for.
pub open spec fn digit_value(c: char) -> nat {
    (c as u32 - '0' as u32) as nat
}

/// The number that a sequence of decimal digits stands for.
pub open spec fn decimal_value(d: Seq<char>) -> nat
    decreases d.len(),
{
    if d.len() == 0 {
        0
    } else {
        decimal_value(d.drop_last()) * 10 + digit_value(d.last())
    }
}

/// The number that `d` stands for, where `d` is one decimal digit or more
/// and nothing else.
pub open spec fn decimal_of(d: Seq<char>) -> Option<nat> {
    if d.len() > 0 && (forall|i: int| 0 <= i < d.len() ==> is_digit(#[trigger] d[i])) {
        Some(decimal_value(d))
    } else {
        None
    }
}

/// The index at which the digits at the end of `s` begin; the length of
/// `s` where it does not end with a digit.
pub open spec fn digits_start(s: Seq<char>) -> int
    decreases s.len(),
{
    if s.len() > 0 && is_digit(s.last()) {
        digits_start(s.drop_last())
    } else {
        s.len() as int
    }
}

/// The number that the first `n` digits stand for is at most the number
/// that all of them stand for.
pub proof fn lemma_decimal_prefix(d: Seq<char>, n: int)
    requires
        0 <= n <= d.len(),
    ensures
        decimal_value(d.subrange(0, n)) <= decimal_value(d),
    decreases d.len(),
{
    if n == d.len() {
        assert(d.subrange(0, n) =~= d);
    } else {
        lemma_decimal_prefix(d.drop_last(), n);
        assert(d.drop_last().subrange(0, n) =~= d.subrange(0, n));
    }
}

/// Whether `c` is a decimal digit.
pub fn is_decimal_digit(c: char) -> (r: bool)
    ensures
        r == is_digit(c),
{
    '0' <= c && c <= '9'
}

/// Reads `v[from..to]` as a decimal number that fits in 32 bits.
pub fn parse_decimal(v: &Vec<char>, from: usize, to: usize) -> (r: Option<u32>)
    requires
        from <= to <= v.len(),
    ensures
        r == match decimal_of(v@.subrange(from as int, to as int)) {
            Some(n) => if n <= u32::MAX {
                Some(n as u32)
            } else {
                None
            },
            None => None,
        },
{
    let ghost d = v@.subrange(from as int, to as int);
    if from == to {
        return None;
    }
    let mut acc: u64 = 0;
    let mut i: usize = from;
    while i < to
        invariant
            from <= i <= to <= v.len(),
            d == v@.subrange(from as int, to as int),
            acc <= u32::MAX,
            forall|j: int| 0 <= j < i - from ==> is_digit(#[trigger] d[j]),
            acc == decimal_value(v@.subrange(from as int, i as int)),
        decreases to - i,
    {
        let c = v[i];
        if !is_decimal_digit(c) {
            assert(!is_digit(d[i - from]));
            return None;
        }
        let digit: u64 = (c as u32 - '0' as u32) as u64;
        let next: u64 = acc * 10 + digit;
        proof {
            assert(v@.subrange(from as int, i + 1).drop_last() =~= v@.subrange(
                from as int,
                i as int,
            ));
            assert(d.subrange(0, i + 1 - from) =~= v@.subrange(from as int, i + 1));
            lemma_decimal_prefix(d, i + 1 - from);
        }
        if next > 0xffff_ffff {
            return None;
        }
        acc = next;
        i += 1;
    }
    assert(v@.subrange(from as int, i as int) == d);
    Some(acc as u32)
}

/// `c` is white space, as Unicode lists it (`White_Space`): the controls
/// from tab to carriage return, the space, next line, the no-break space,
/// the Ogham space mark, the spaces from en quad to hair space, the line and
/// paragraph separators, the narrow no-break space, the medium mathematical
/// space and the ideographic space.
pub open spec fn is_white_space(c: char) -> bool {
    ('\u{9}' <= c && c <= '\u{d}') || c == ' ' || c == '\u{85}' || c == '\u{a0}' || c
        == '\u{1680}' || ('\u{2000}' <= c && c <= '\u{200a}') || c == '\u{2028}' || c
        == '\u{2029}' || c == '\u{202f}' || c == '\u{205f}' || c == '\u{3000}'
}

/// `char::is_whitespace` tells whether a character is white space as
/// Unicode lists it.
pub assume_specification[ char::is_whitespace ](c: char) -> (r: bool)
    ensures
        r == is_white_space(c),
;

/// The index of the first character at or after `i` that is not white
/// space; the length of `s` where there is none.
pub open spec fn skip_space(s: Seq<char>, i: int) -> int
    decreases s.len() - i,
{
    if i < 0 || i >= s.len() {
        s.len() as int
    } else if is_white_space(s[i]) {
        skip_space(s, i + 1)
    } else {
        i
    }
}

/// The index after the last character before `j` that is not white space;
/// zero where there is none.
pub open spec fn drop_space(s: Seq<char>, j: int) -> int
    decreases j,
{
    if j <= 0 || j > s.len() {
        0
    } else if is_white_space(s[j - 1]) {
        drop_space(s, j - 1)
    } else {
        j
    }
}

/// `s` without the white space at its two ends.
pub open spec fn trimmed(s: Seq<char>) -> Seq<char> {
    let from = skip_space(s, 0);
    let to = drop_space(s, s.len() as int);
    if from < to {
        s.subrange(from, to)
    } else {
        Seq::empty()
    }
}

/// The string made of `v[from..]` without the white space at its two ends.
pub fn trim_from(v: &Vec<char>, from: usize) -> (r: String)
    requires
        from <= v.len(),
    ensures
        r@ == trimmed(v@.subrange(from as int, v@.len() as int)),
{
    let ghost s = v@.subrange(from as int, v@.len() as int);
    let mut a: usize = from;
    while a < v.len() && v[a].is_whitespace()
        invariant
            from <= a <= v.len(),
            s == v@.subrange(from as int, v@.len() as int),
            skip_space(s, 0) == skip_space(s, a - from),
        decreases v.len() - a,
    {
        a += 1;
    }
    let mut b: usize = v.len();
    while b > from && v[b - 1].is_whitespace()
        invariant
            from <= b <= v.len(),
            s == v@.subrange(from as int, v@.len() as int),
            drop_space(s, s.len() as int) == drop_space(s, b - from),
        decreases b,
    {
        b -= 1;
    }
    if a < b {
        assert(s.subrange(a - from, b - from) =~= v@.subrange(a as int, b as int));
        from_chars(v, a, b)
    } else {
        String::new()
    }
}

/// `s` in lower case, as Unicode defines it.
pub uninterp spec fn lowercase_of(s: Seq<char>) -> Seq<char>;

/// `str::to_lowercase` maps a text to lower case by the rules of Unicode,
/// which depend on the text alone.
pub assume_specification[ str::to_lowercase ](s: &str) -> (r: String)
    ensures
        r@ == lowercase_of(s@),
;

/// `s` from index `i` on, with `t` in place of each `p`, the occurrences
/// taken from left to right. An empty `p` occurs nowhere.
pub open spec fn replaced_from(s: Seq<char>, p: Seq<char>, t: Seq<char>, i: int) -> Seq<char>
    decreases s.len() - i,
{
    if i < 0 || i >= s.len() {
        Seq::empty()
    } else if p.len() > 0 && occurs_at(s, p, i) {
        t + replaced_from(s, p, t, i + p.len())
    } else {
        seq![s[i]] + replaced_from(s, p, t, i + 1)
    }
}

/// `s` with `t` in place of each `p`.
pub open spec fn replaced(s: Seq<char>, p: Seq<char>, t: Seq<char>) -> Seq<char> {
    replaced_from(s, p, t, 0)
}

/// Appends the characters of `t` to `out`.
pub fn append_chars(out: &mut Vec<char>, t: &Vec<char>)
    ensures
        final(out)@ == old(out)@ + t@,
{
    let ghost before = out@;
    let mut k: usize = 0;
    assert(out@ =~= before + t@.subrange(0, 0));
    while k < t.len()
        invariant
            k <= t.len(),
            out@ == before + t@.subrange(0, k as int),
        decreases t.len() - k,
    {
        assert((before + t@.subrange(0, k as int)).push(t@[k as int]) =~= before + t@.subrange(
            0,
            k + 1,
        ));
        out.push(t[k]);
        k += 1;
    }
    assert(t@.subrange(0, t@.len() as int) =~= t@);
}

/// `v` with `t` in place of each `p`.
pub fn replace_all(v: &Vec<char>, p: &Vec<char>, t: &Vec<char>) -> (r: Vec<char>)
    ensures
        r@ == replaced(v@, p@, t@),
{
    let mut out: Vec<char> = Vec::new();
    let mut i: usize = 0;
    assert(out@ + replaced_from(v@, p@, t@, 0) =~= replaced_from(v@, p@, t@, 0));
    while i < v.len()
        invariant
            i <= v.len(),
            replaced(v@, p@, t@) == out@ + replaced_from(v@, p@, t@, i as int),
        decreases v.len() - i,
    {
        if p.len() > 0 && matches_at(v, p, i) {
            let ghost before = out@;
            append_chars(&mut out, t);
            assert((before + t@) + replaced_from(v@, p@, t@, i + p.len()) =~= before + (t@
                + replaced_from(v@, p@, t@, i + p.len())));
            i += p.len();
        } else {
            assert(out@.push(v@[i as int]) + replaced_from(v@, p@, t@, i + 1) =~= out@ + (seq![
                v@[i as int],
            ] + replaced_from(v@, p@, t@, i + 1)));
            out.push(v[i]);
            i += 1;
        }
    }
    assert(out@ + Seq::<char>::empty() =~= out@);
    out
}

/// The character that stands for a number below ten.
pub open spec fn digit_char(d: nat) -> char {
    if d == 0 {
        '0'
    } else if d == 1 {
        '1'
    } else if d == 2 {
        '2'
    } else if d == 3 {
        '3'
    } else if d == 4 {
        '4'
    } else if d == 5 {
        '5'
    } else if d == 6 {
        '6'
    } else if d == 7 {
        '7'
    } else if d == 8 {
        '8'
    } else {
        '9'
    }
}

/// The decimal digits of `n`, without leading zeros.
pub open spec fn digits_of(n: nat) -> Seq<char>
    decreases n,
{
    if n < 10 {
        seq![digit_char(n)]
    } else {
        digits_of(n / 10).push(digit_char(n % 10))
    }
}

/// The character that stands for `d`.
pub fn digit(d: u32) -> (r: char)
    requires
        d < 10,
    ensures
        r == digit_char(d as nat),
{
    if d == 0 {
        '0'
    } else if d == 1 {
        '1'
    } else if d == 2 {
        '2'
    } else if d == 3 {
        '3'
    } else if d == 4 {
        '4'
    } else if d == 5 {
        '5'
    } else if d == 6 {
        '6'
    } else if d == 7 {
        '7'
    } else if d == 8 {
        '8'
    } else {
        '9'
    }
}

/// Appends the decimal digits of `n` to `out`.
pub fn push_decimal(out: &mut Vec<char>, n: u32)
    ensures
        final(out)@ == old(out)@ + digits_of(n as nat),
    decreases n,
{
    if n < 10 {
        assert(out@.push(digit_char(n as nat)) =~= out@ + digits_of(n as nat));
        out.push(digit(n));
    } else {
        let ghost before = out@;
        push_decimal(out, n / 10);
        assert((before + digits_of((n / 10) as nat)).push(digit_char((n % 10) as nat)) =~= before
            + digits_of(n as nat));
        out.push(digit(n % 10));
    }
}

/// The two parts of `s` before and after the place `n`, counted in the
/// bytes of `s` as UTF-8; `None` where `n` lies inside a character or
/// outside `s`.
pub open spec fn cut_at(s: Seq<char>, n: int) -> Option<(Seq<char>, Seq<char>)> {
    let bytes = encode_utf8(s);
    if is_char_boundary(bytes, n) {
        Some((decode_utf8(bytes.subrange(0, n)), decode_utf8(bytes.subrange(n, bytes.len() as int))))
    } else {
        None
    }
}

/// The two parts of a cut make up the text again.
pub proof fn lemma_cut_at(s: Seq<char>, n: int)
    ensures
        cut_at(s, n) matches Some((a, b)) ==> a + b == s,
{
    let bytes = encode_utf8(s);
    encode_utf8_valid_utf8(s);
    encode_utf8_decode_utf8(s);
    if is_char_boundary(bytes, n) {
        decode_utf8_split(bytes, n);
    }
}

/// Cuts `line` at the byte offset `at`.
pub fn cut<'a>(line: &'a str, at: usize) -> (r: Option<(&'a str, &'a str)>)
    ensures
        match r {
            Some((a, b)) => cut_at(line@, at as int) == Some((a@, b@)) && line@ == a@ + b@,
            None => cut_at(line@, at as int) is None,
        },
{
    proof {
        encode_utf8_valid_utf8(line@);
        lemma_cut_at(line@, at as int);
    }
    if line.is_char_boundary(at) {
        let (a, b) = line.split_at(at);
        proof {
            encode_utf8_decode_utf8(a@);
            encode_utf8_decode_utf8(b@);
            assert(a.spec_bytes() == line.spec_bytes().subrange(0, at as int));
            assert(b.spec_bytes() == line.spec_bytes().subrange(
                at as int,
                line.spec_bytes().len() as int,
            ));
        }
        Some((a, b))
    } else {
        None
    }
}

} // verus!
