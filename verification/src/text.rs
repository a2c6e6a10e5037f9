//! Character-level text helpers shared by the build tooling.
//!
//! Strings are reasoned about through their character sequences (`s@`).

use vstd::prelude::*;

verus! {

/// The Unicode `White_Space` property, which `char::is_whitespace` tests.
pub open spec fn is_ws(c: char) -> bool {
    ||| ('\u{9}' <= c && c <= '\u{d}')
    ||| c == ' '
    ||| c == '\u{85}'
    ||| c == '\u{a0}'
    ||| c == '\u{1680}'
    ||| ('\u{2000}' <= c && c <= '\u{200a}')
    ||| c == '\u{2028}'
    ||| c == '\u{2029}'
    ||| c == '\u{202f}'
    ||| c == '\u{205f}'
    ||| c == '\u{3000}'
}

/// Whether `c` is Unicode whitespace.
pub fn is_whitespace(c: char) -> (r: bool)
    ensures
        r == is_ws(c),
{
    ('\u{9}' <= c && c <= '\u{d}') || c == ' ' || c == '\u{85}' || c == '\u{a0}' || c
        == '\u{1680}' || ('\u{2000}' <= c && c <= '\u{200a}') || c == '\u{2028}' || c
        == '\u{2029}' || c == '\u{202f}' || c == '\u{205f}' || c == '\u{3000}'
}

/// An ASCII decimal digit.
pub open spec fn is_digit(c: char) -> bool {
    '0' <= c && c <= '9'
}

/// Whether `c` is an ASCII decimal digit.
pub fn is_ascii_digit(c: char) -> (r: bool)
    ensures
        r == is_digit(c),
{
    '0' <= c && c <= '9'
}

/// ASCII upper-casing of one character; every other character is kept.
pub open spec fn ascii_upper(c: char) -> char {
    if 'a' <= c && c <= 'z' {
        ((c as u32) - 32) as char
    } else {
        c
    }
}

/// ASCII lower-casing of one character; every other character is kept.
pub open spec fn ascii_lower(c: char) -> char {
    if 'A' <= c && c <= 'Z' {
        ((c as u32) + 32) as char
    } else {
        c
    }
}

/// `char::to_ascii_uppercase`.
pub fn to_ascii_upper(c: char) -> (r: char)
    ensures
        r == ascii_upper(c),
{
    if 'a' <= c && c <= 'z' {
        let b: u8 = c as u8;
        (b - 32) as char
    } else {
        c
    }
}

/// `char::to_ascii_lowercase`.
pub fn to_ascii_lower(c: char) -> (r: char)
    ensures
        r == ascii_lower(c),
{
    if 'A' <= c && c <= 'Z' {
        let b: u8 = c as u8;
        (b + 32) as char
    } else {
        c
    }
}

/// The smallest `k` in `from..to` with `p(k)`, or `to` when there is none.
pub open spec fn first_index(from: int, to: int, p: spec_fn(int) -> bool) -> int
    decreases to - from,
{
    if from >= to {
        to
    } else if p(from) {
        from
    } else {
        first_index(from + 1, to, p)
    }
}

/// `first_index` is pinned down by minimality.
pub proof fn lemma_first_index(from: int, to: int, p: spec_fn(int) -> bool, k: int)
    requires
        from <= k <= to,
        forall|j: int| from <= j < k ==> !#[trigger] p(j),
        k < to ==> p(k),
    ensures
        first_index(from, to, p) == k,
    decreases k - from,
{
    if from < k {
        lemma_first_index(from + 1, to, p, k);
    }
}

/// What `first_index` returns satisfies `p` (when in range) and nothing before it does.
pub proof fn lemma_first_index_facts(from: int, to: int, p: spec_fn(int) -> bool)
    requires
        from <= to,
    ensures
        from <= first_index(from, to, p) <= to,
        first_index(from, to, p) < to ==> p(first_index(from, to, p)),
        forall|j: int| from <= j < first_index(from, to, p) ==> !#[trigger] p(j),
    decreases to - from,
{
    if from < to && !p(from) {
        lemma_first_index_facts(from + 1, to, p);
    }
}

/// The characters of `s`, in order.
pub fn chars_of(s: &str) -> (v: Vec<char>)
    ensures
        v@ == s@,
{
    let mut v: Vec<char> = Vec::new();
    for c in it: s.chars()
        invariant
            v@ == it.seq().take(it.index() as int),
            it.seq() == s@,
    {
        v.push(c);
    }
    v
}

/// Appends one character by `String::push`, which std documents as appending
/// the given `char` to the end of the string; the contract claims exactly that.
#[verifier::external_body]
pub(crate) fn push_char(s: &mut String, c: char)
    ensures
        final(s)@ == old(s)@.push(c),
{
    s.push(c);
}

/// Appends the characters `v[from..to]` to `out`.
pub fn push_chars(out: &mut String, v: &Vec<char>, from: usize, to: usize)
    requires
        from <= to <= v.len(),
    ensures
        final(out)@ == old(out)@ + v@.subrange(from as int, to as int),
{
    let mut i = from;
    while i < to
        invariant
            from <= i <= to <= v.len(),
            out@ == old(out)@ + v@.subrange(from as int, i as int),
        decreases to - i,
    {
        push_char(out, v[i]);
        assert(v@.subrange(from as int, i + 1) =~= v@.subrange(from as int, i as int).push(v@[i as int]));
        i += 1;
    }
}

/// A string holding the characters of `s`.
pub fn string_from(s: &str) -> (r: String)
    ensures
        r@ == s@,
{
    s.to_owned()
}

/// Appends `s` to `out`.
pub fn push_str(out: &mut String, s: &str)
    ensures
        final(out)@ == old(out)@ + s@,
{
    out.append(s);
}

/// The decimal digit for `d < 10`.
pub open spec fn digit_char(d: nat) -> char {
    ('0' as u32 + d) as char
}

/// The decimal notation of `n`, without leading zeros.
pub open spec fn decimal(n: nat) -> Seq<char>
    decreases n,
{
    if n < 10 {
        seq![digit_char(n)]
    } else {
        decimal(n / 10).push(digit_char(n % 10))
    }
}

/// The decimal notation of a signed number, with a leading `-` when negative.
pub open spec fn signed_decimal(n: int) -> Seq<char> {
    if n < 0 {
        seq!['-'] + decimal((-n) as nat)
    } else {
        decimal(n as nat)
    }
}

/// Appends the decimal notation of `n` to `out`.
pub fn push_decimal(out: &mut String, n: u64)
    ensures
        final(out)@ == old(out)@ + decimal(n as nat),
{
    let mut digits: Vec<char> = Vec::new();
    let mut r: u64 = n;
    loop
        invariant_except_break
            decimal(n as nat) == decimal(r as nat) + digits@,
        ensures
            decimal(n as nat) == digits@,
        decreases r,
    {
        let d: u64 = r % 10;
        let c: char = ((d as u8) + 48) as char;
        assert(c == digit_char(d as nat));
        let ghost before = digits@;
        digits.insert(0, c);
        assert(digits@ =~= seq![c] + before);
        if r < 10 {
            assert(decimal(n as nat) =~= digits@);
            break;
        }
        assert(decimal(r as nat) == decimal((r / 10) as nat).push(c));
        assert(decimal((r / 10) as nat).push(c) + before =~= decimal((r / 10) as nat) + digits@);
        r = r / 10;
    }
    push_chars(out, &digits, 0, digits.len());
    assert(digits@.subrange(0, digits.len() as int) =~= digits@);
}

/// `pat` occurs in `s` starting at index `i`.
pub open spec fn matches_at(s: Seq<char>, pat: Seq<char>, i: int) -> bool {
    0 <= i && i + pat.len() <= s.len() && s.subrange(i, i + pat.len()) == pat
}

/// `pat` occurs somewhere in `s`.
pub open spec fn contains(s: Seq<char>, pat: Seq<char>) -> bool {
    exists|i: int| #[trigger] matches_at(s, pat, i)
}

/// The number of non-overlapping occurrences of a non-empty `pat` that a
/// left-to-right scan of `s`, starting at `i`, finds (as `str::matches` does).
pub open spec fn match_count_from(s: Seq<char>, pat: Seq<char>, i: int) -> nat
    decreases s.len() - i,
{
    if pat.len() == 0 || i < 0 || i + pat.len() > s.len() {
        0
    } else if matches_at(s, pat, i) {
        1 + match_count_from(s, pat, i + pat.len())
    } else {
        match_count_from(s, pat, i + 1)
    }
}

pub open spec fn match_count(s: Seq<char>, pat: Seq<char>) -> nat {
    match_count_from(s, pat, 0)
}

/// The index of the leftmost occurrence of `pat` in `s`
/// (`s.len() - pat.len() + 1` when there is none).
pub open spec fn first_match(s: Seq<char>, pat: Seq<char>) -> int {
    first_index(0, s.len() - pat.len() + 1, |i: int| matches_at(s, pat, i))
}

/// Whether `pat` occurs in `t` at index `i`.
pub fn matches_at_exec(t: &Vec<char>, pat: &Vec<char>, i: usize) -> (r: bool)
    ensures
        r == matches_at(t@, pat@, i as int),
{
    if pat.len() > t.len() || i > t.len() - pat.len() {
        return false;
    }
    let mut k: usize = 0;
    while k < pat.len()
        invariant
            k <= pat.len(),
            i + pat.len() <= t.len(),
            forall|j: int| 0 <= j < k ==> t@[i + j] == pat@[j],
        decreases pat.len() - k,
    {
        if t[i + k] != pat[k] {
            assert(t@.subrange(i as int, i + pat.len())[k as int] != pat@[k as int]);
            return false;
        }
        k += 1;
    }
    assert(t@.subrange(i as int, i + pat.len()) =~= pat@);
    true
}

/// Scans `t` left to right for non-overlapping occurrences of `pat`; returns
/// how many there are and, when there is one, where the leftmost starts.
pub fn scan_matches(t: &Vec<char>, pat: &Vec<char>) -> (r: (usize, usize))
    requires
        pat.len() > 0,
    ensures
        r.0 == match_count(t@, pat@),
        r.0 > 0 ==> r.1 == first_match(t@, pat@) && matches_at(t@, pat@, r.1 as int),
        r.0 == 0 <==> !contains(t@, pat@),
{
    let ghost tv = t@;
    let ghost pv = pat@;
    let mut i: usize = 0;
    let mut count: usize = 0;
    let mut first: usize = 0;
    if pat.len() <= t.len() {
        while i <= t.len() - pat.len()
            invariant
                pat.len() > 0,
                pat.len() <= t.len(),
                count <= i,
                i <= t.len(),
                count + match_count_from(tv, pv, i as int) == match_count(tv, pv),
                count == 0 ==> forall|j: int| 0 <= j < i ==> !#[trigger] matches_at(tv, pv, j),
                count > 0 ==> first == first_match(tv, pv) && matches_at(tv, pv, first as int),
                tv == t@,
                pv == pat@,
            decreases t.len() - i,
        {
            if matches_at_exec(t, pat, i) {
                if count == 0 {
                    first = i;
                    proof {
                        lemma_first_index(0, tv.len() - pv.len() + 1, |k: int| matches_at(tv, pv, k), i as int);
                    }
                }
                count += 1;
                i += pat.len();
            } else {
                i += 1;
            }
        }
    }
    proof {
        if count == 0 {
            assert forall|j: int| !#[trigger] matches_at(tv, pv, j) by {
                if 0 <= j < i {
                } else if matches_at(tv, pv, j) {
                    assert(j + pv.len() <= tv.len());
                }
            }
        }
    }
    (count, first)
}

/// Whether `pat` occurs in `s`.
pub fn contains_exec(s: &str, pat: &str) -> (r: bool)
    requires
        pat@.len() > 0,
    ensures
        r == contains(s@, pat@),
{
    let t = chars_of(s);
    let p = chars_of(pat);
    let (n, _) = scan_matches(&t, &p);
    n > 0
}

/// Skipping positions where `pat` does not occur leaves the remaining count unchanged.
pub proof fn lemma_count_skip(s: Seq<char>, pat: Seq<char>, i: int, k: int)
    requires
        pat.len() > 0,
        0 <= i <= k,
        forall|j: int| i <= j < k ==> !#[trigger] matches_at(s, pat, j),
    ensures
        match_count_from(s, pat, i) == match_count_from(s, pat, k),
    decreases k - i,
{
    if i < k {
        lemma_count_skip(s, pat, i + 1, k);
    }
}

/// A zero count from `i` means no occurrence at or after `i`.
pub proof fn lemma_count_zero(s: Seq<char>, pat: Seq<char>, i: int)
    requires
        pat.len() > 0,
        0 <= i,
        match_count_from(s, pat, i) == 0,
    ensures
        forall|j: int| i <= j ==> !#[trigger] matches_at(s, pat, j),
    decreases s.len() - i,
{
    if i + pat.len() <= s.len() {
        lemma_count_zero(s, pat, i + 1);
    }
}

/// `first_match` is the leftmost occurrence, when there is one.
pub proof fn lemma_first_match_facts(s: Seq<char>, pat: Seq<char>)
    requires
        pat.len() <= s.len(),
    ensures
        0 <= first_match(s, pat) <= s.len() - pat.len() + 1,
        first_match(s, pat) <= s.len() - pat.len() ==> matches_at(s, pat, first_match(s, pat)),
        forall|j: int| 0 <= j < first_match(s, pat) ==> !#[trigger] matches_at(s, pat, j),
{
    let pred = |i: int| matches_at(s, pat, i);
    lemma_first_index_facts(0, s.len() - pat.len() + 1, pred);
    assert forall|j: int| 0 <= j < first_match(s, pat) implies !#[trigger] matches_at(s, pat, j) by {
        assert(!pred(j));
    }
}

/// The first index in `from..to` holding a character that is not whitespace.
pub open spec fn skip_ws(s: Seq<char>, from: int, to: int) -> int {
    first_index(from, to, |k: int| !is_ws(s[k]))
}

/// The first index in `from..to` holding whitespace.
pub open spec fn next_ws(s: Seq<char>, from: int, to: int) -> int {
    first_index(from, to, |k: int| is_ws(s[k]))
}

/// The first index in `from..to` holding `c`.
pub open spec fn next_char(s: Seq<char>, from: int, to: int, c: char) -> int {
    first_index(from, to, |k: int| char_at(s, k, c))
}

pub open spec fn char_at(s: Seq<char>, k: int, c: char) -> bool {
    s[k] == c
}

/// The end of `s[from..to]` once trailing whitespace is dropped.
pub open spec fn trim_end_to(s: Seq<char>, from: int, to: int) -> int
    decreases to - from,
{
    if to <= from {
        from
    } else if is_ws(s[to - 1]) {
        trim_end_to(s, from, to - 1)
    } else {
        to
    }
}

/// `s` without leading whitespace (`str::trim_start`).
pub open spec fn trim_start(s: Seq<char>) -> Seq<char> {
    s.subrange(skip_ws(s, 0, s.len() as int), s.len() as int)
}

/// `s` without leading or trailing whitespace (`str::trim`).
pub open spec fn trim(s: Seq<char>) -> Seq<char> {
    let a = skip_ws(s, 0, s.len() as int);
    s.subrange(a, trim_end_to(s, a, s.len() as int))
}

pub fn skip_ws_exec(v: &Vec<char>, from: usize, to: usize) -> (r: usize)
    requires
        from <= to <= v.len(),
    ensures
        r == skip_ws(v@, from as int, to as int),
        from <= r <= to,
{
    let mut i = from;
    while i < to && is_whitespace(v[i])
        invariant
            from <= i <= to <= v.len(),
            forall|j: int| from <= j < i ==> is_ws(#[trigger] v@[j]),
        decreases to - i,
    {
        i += 1;
    }
    proof {
        lemma_first_index(from as int, to as int, |k: int| !is_ws(v@[k]), i as int);
    }
    i
}

pub fn next_ws_exec(v: &Vec<char>, from: usize, to: usize) -> (r: usize)
    requires
        from <= to <= v.len(),
    ensures
        r == next_ws(v@, from as int, to as int),
        from <= r <= to,
{
    let mut i = from;
    while i < to && !is_whitespace(v[i])
        invariant
            from <= i <= to <= v.len(),
            forall|j: int| from <= j < i ==> !is_ws(#[trigger] v@[j]),
        decreases to - i,
    {
        i += 1;
    }
    proof {
        lemma_first_index(from as int, to as int, |k: int| is_ws(v@[k]), i as int);
    }
    i
}

pub fn next_char_exec(v: &Vec<char>, from: usize, to: usize, c: char) -> (r: usize)
    requires
        from <= to <= v.len(),
    ensures
        r == next_char(v@, from as int, to as int, c),
        from <= r <= to,
{
    let mut i = from;
    while i < to && v[i] != c
        invariant
            from <= i <= to <= v.len(),
            forall|j: int| from <= j < i ==> #[trigger] v@[j] != c,
        decreases to - i,
    {
        i += 1;
    }
    proof {
        assert(forall|j: int| from <= j < i ==> !char_at(v@, j, c));
        lemma_first_index(from as int, to as int, |k: int| char_at(v@, k, c), i as int);
    }
    i
}

pub fn trim_end_exec(v: &Vec<char>, from: usize, to: usize) -> (r: usize)
    requires
        from <= to <= v.len(),
    ensures
        r == trim_end_to(v@, from as int, to as int),
        from <= r <= to,
{
    let mut e = to;
    while e > from && is_whitespace(v[e - 1])
        invariant
            from <= e <= to <= v.len(),
            trim_end_to(v@, from as int, e as int) == trim_end_to(v@, from as int, to as int),
        decreases e,
    {
        e -= 1;
    }
    e
}

/// The decimal value of a run of ASCII digits.
pub open spec fn digits_value(s: Seq<char>) -> nat
    decreases s.len(),
{
    if s.len() == 0 {
        0
    } else {
        digits_value(s.drop_last()) * 10 + ((s.last() as u32) - ('0' as u32)) as nat
    }
}

pub open spec fn all_digits(s: Seq<char>) -> bool {
    forall|k: int| 0 <= k < s.len() ==> is_digit(#[trigger] s[k])
}

/// What `u32::from_str` returns: an optional `+`, then one or more ASCII
/// digits whose value fits in a `u32`.
pub open spec fn parse_u32(s: Seq<char>) -> Option<u32> {
    let d = unsigned_digits(s);
    if d.len() > 0 && all_digits(d) && digits_value(d) <= u32::MAX {
        Some(digits_value(d) as u32)
    } else {
        None
    }
}

/// `s` without one leading `+`.
pub open spec fn unsigned_digits(s: Seq<char>) -> Seq<char> {
    if s.len() > 0 && s[0] == '+' {
        s.drop_first()
    } else {
        s
    }
}

/// Extending a digit run never lowers its value.
pub proof fn lemma_digits_value_grows(s: Seq<char>, k: int)
    requires
        0 <= k <= s.len(),
        all_digits(s),
    ensures
        digits_value(s.take(k)) <= digits_value(s),
    decreases s.len() - k,
{
    if k < s.len() {
        lemma_digits_value_grows(s, k + 1);
        assert(s.take(k + 1).drop_last() =~= s.take(k));
        let d = ((s.take(k + 1).last() as u32) - ('0' as u32)) as nat;
        assert(digits_value(s.take(k + 1)) == digits_value(s.take(k)) * 10 + d);
        assert(digits_value(s.take(k)) <= digits_value(s.take(k)) * 10) by (nonlinear_arith);
    } else {
        assert(s.take(k) =~= s);
    }
}

/// `u32::from_str` on `v[from..to]`.
pub fn parse_u32_exec(v: &Vec<char>, from: usize, to: usize) -> (r: Option<u32>)
    requires
        from <= to <= v.len(),
    ensures
        r == parse_u32(v@.subrange(from as int, to as int)),
{
    let ghost s = v@.subrange(from as int, to as int);
    let start = if from < to && v[from] == '+' { from + 1 } else { from };
    let ghost d = v@.subrange(start as int, to as int);
    assert(d =~= unsigned_digits(s));
    if start == to {
        return None;
    }
    let mut acc: u64 = 0;
    let mut i = start;
    while i < to
        invariant
            start <= i <= to <= v.len(),
            start < to,
            d == v@.subrange(start as int, to as int),
            d == unsigned_digits(v@.subrange(from as int, to as int)),
            all_digits(d.take(i - start)),
            acc == digits_value(d.take(i - start)),
            acc <= u32::MAX,
        decreases to - i,
    {
        let c = v[i];
        if !is_ascii_digit(c) {
            assert(d[i - start] == c);
            assert(!is_digit(d[i - start]));
            assert(!all_digits(d));
            return None;
        }
        let dig: u64 = ((c as u32) - ('0' as u32)) as u64;
        assert(d.take(i - start + 1).drop_last() =~= d.take(i - start));
        assert(d.take(i - start + 1).last() == c);
        let next: u64 = acc * 10 + dig;
        assert(next == digits_value(d.take(i - start + 1)));
        if next > 0xffff_ffff {
            proof {
                if all_digits(d) {
                    lemma_digits_value_grows(d, i - start + 1);
                }
            }
            return None;
        }
        acc = next;
        i += 1;
    }
    assert(d.take(to - start) =~= d);
    Some(acc as u32)
}

/// `list` joined by `sep` (`[T]::join`).
pub open spec fn seq_join(list: Seq<Seq<char>>, sep: Seq<char>) -> Seq<char>
    decreases list.len(),
{
    if list.len() == 0 {
        seq![]
    } else if list.len() == 1 {
        list[0]
    } else {
        seq_join(list.drop_last(), sep) + sep + list.last()
    }
}

/// The views of a list of strings.
pub open spec fn views(list: Seq<String>) -> Seq<Seq<char>> {
    list.map_values(|s: String| s@)
}

/// Appends the strings of `list`, separated by `sep`, to `out`.
pub fn push_joined(out: &mut String, list: &Vec<String>, sep: &str)
    ensures
        final(out)@ == old(out)@ + seq_join(views(list@), sep@),
{
    let ghost start = out@;
    let mut i: usize = 0;
    while i < list.len()
        invariant
            i <= list.len(),
            out@ == start + seq_join(views(list@.take(i as int)), sep@),
        decreases list.len() - i,
    {
        let ghost before = out@;
        if i > 0 {
            push_str(out, sep);
        }
        push_str(out, list[i].as_str());
        proof {
            let l = views(list@.take(i + 1));
            assert(l.drop_last() =~= views(list@.take(i as int)));
            assert(l.last() == list@[i as int]@);
            if i == 0 {
                assert(views(list@.take(0)) =~= Seq::<Seq<char>>::empty());
                assert(l.len() == 1);
            }
            assert(out@ =~= start + seq_join(l, sep@));
        }
        i += 1;
    }
    assert(list@.take(list.len() as int) =~= list@);
}

/// Appends the decimal notation of a signed number to `out`.
pub fn push_signed_decimal(out: &mut String, n: i32)
    ensures
        final(out)@ == old(out)@ + signed_decimal(n as int),
{
    if n < 0 {
        push_str(out, "-");
        proof {
            reveal_strlit("-");
        }
        let m: i64 = -(n as i64);
        push_decimal(out, m as u64);
        assert(out@ =~= old(out)@ + signed_decimal(n as int));
    } else {
        push_decimal(out, n as u64);
    }
}

/// Skipping whitespace in a slice of `v` is skipping it in `v` itself.
pub proof fn lemma_skip_ws_shift(v: Seq<char>, from: int, to: int)
    requires
        0 <= from <= to <= v.len(),
    ensures
        skip_ws(v.subrange(from, to), 0, to - from) == skip_ws(v, from, to) - from,
{
    let s = v.subrange(from, to);
    let r = skip_ws(v, from, to);
    lemma_first_index_facts(from, to, |k: int| !is_ws(v[k]));
    assert forall|j: int| 0 <= j < r - from implies !!is_ws(#[trigger] s[j]) by {
        assert(s[j] == v[from + j]);
        assert(!(|k: int| !is_ws(v[k]))(from + j));
    }
    if r < to {
        assert(s[r - from] == v[r]);
    }
    lemma_first_index(0, to - from, |k: int| !is_ws(s[k]), r - from);
}

/// Dropping trailing whitespace from a slice of `v` agrees with `v` itself.
pub proof fn lemma_trim_end_shift(v: Seq<char>, from: int, a: int, to: int)
    requires
        0 <= from <= a <= to <= v.len(),
    ensures
        trim_end_to(v.subrange(from, to), a - from, to - from) == trim_end_to(v, a, to) - from,
    decreases to - a,
{
    let s = v.subrange(from, to);
    if a < to {
        assert(s[to - from - 1] == v[to - 1]);
        if is_ws(v[to - 1]) {
            lemma_trim_end_shift(v, from, a, to - 1);
            assert(v.subrange(from, to - 1) =~= s.subrange(0, to - 1 - from));
            lemma_trim_end_prefix(s, a - from, to - 1 - from, to - from);
        }
    }
}

/// `trim_end_to` only reads the characters before `to`.
pub proof fn lemma_trim_end_prefix(s: Seq<char>, a: int, to: int, n: int)
    requires
        0 <= a <= to <= n <= s.len(),
    ensures
        trim_end_to(s.subrange(0, to), a, to) == trim_end_to(s, a, to),
    decreases to - a,
{
    if a < to {
        assert(s.subrange(0, to)[to - 1] == s[to - 1]);
        if is_ws(s[to - 1]) {
            assert(s.subrange(0, to).subrange(0, to - 1) =~= s.subrange(0, to - 1));
            lemma_trim_end_prefix(s.subrange(0, to), a, to - 1, to);
            lemma_trim_end_prefix(s, a, to - 1, n);
        }
    }
}

/// The bounds of `v[from..to]` with surrounding whitespace dropped.
pub fn trim_bounds(v: &Vec<char>, from: usize, to: usize) -> (r: (usize, usize))
    requires
        from <= to <= v.len(),
    ensures
        from <= r.0 <= r.1 <= to,
        v@.subrange(r.0 as int, r.1 as int) == trim(v@.subrange(from as int, to as int)),
{
    let a = skip_ws_exec(v, from, to);
    let b = trim_end_exec(v, a, to);
    proof {
        let s = v@.subrange(from as int, to as int);
        lemma_skip_ws_shift(v@, from as int, to as int);
        lemma_trim_end_shift(v@, from as int, a as int, to as int);
        assert(s.subrange(a - from, b - from) =~= v@.subrange(a as int, b as int));
    }
    (a, b)
}

} // verus!
