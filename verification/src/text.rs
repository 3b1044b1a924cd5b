//! Character-sequence helpers shared by the rest of the library.
//!
//! Strings are reasoned about through their views, `Seq<char>`. The few
//! std string operations that vstd does not specify are wrapped here, each
//! with the contract that its documentation gives.

use vstd::prelude::*;

verus! {

// ---------------------------------------------------------------------------
// Specifications
// ---------------------------------------------------------------------------

/// Unicode lower-casing of a character sequence, as `str::to_lowercase` computes it.
pub uninterp spec fn lowercase(s: Seq<char>) -> Seq<char>;

/// Unicode `Alphabetic || Numeric`, as `char::is_alphanumeric` decides it.
pub uninterp spec fn alphanumeric(c: char) -> bool;

/// `p` is a prefix of `s`.
pub open spec fn has_prefix(s: Seq<char>, p: Seq<char>) -> bool {
    p.len() <= s.len() && s.subrange(0, p.len() as int) == p
}

/// `p` is a suffix of `s`.
pub open spec fn has_suffix(s: Seq<char>, p: Seq<char>) -> bool {
    p.len() <= s.len() && s.subrange(s.len() - p.len(), s.len() as int) == p
}

/// `p` occurs in `s` starting at index `i`.
pub open spec fn occurs_at(s: Seq<char>, p: Seq<char>, i: int) -> bool {
    0 <= i && i + p.len() <= s.len() && s.subrange(i, i + p.len()) == p
}

/// `p` occurs somewhere in `s`.
pub open spec fn contains_seq(s: Seq<char>, p: Seq<char>) -> bool {
    exists|i: int| occurs_at(s, p, i)
}

/// Index of the first occurrence of `p` in `s` at or after `start`.
pub open spec fn first_occurrence_from(s: Seq<char>, p: Seq<char>, start: int) -> Option<int>
    decreases s.len() + 1 - start,
{
    if start < 0 || start + p.len() > s.len() {
        None
    } else if occurs_at(s, p, start) {
        Some(start)
    } else {
        first_occurrence_from(s, p, start + 1)
    }
}

/// `s` with every non-overlapping occurrence of the non-empty `p` (scanning
/// from the left) replaced by `r`, as `str::replace` computes it.
pub open spec fn replace_all(s: Seq<char>, p: Seq<char>, r: Seq<char>) -> Seq<char>
    decreases s.len(),
{
    if p.len() == 0 || s.len() < p.len() {
        s
    } else if s.subrange(0, p.len() as int) == p {
        r + replace_all(s.subrange(p.len() as int, s.len() as int), p, r)
    } else {
        seq![s[0]] + replace_all(s.drop_first(), p, r)
    }
}

/// The character of a decimal digit.
pub open spec fn digit_char(d: nat) -> char {
    ((d % 10) + 48) as char
}

/// Decimal representation of `n`, without leading zeros.
pub open spec fn decimal(n: nat) -> Seq<char>
    decreases n,
{
    if n < 10 {
        seq![digit_char(n)]
    } else {
        decimal(n / 10).push(digit_char(n % 10))
    }
}

/// Unicode `White_Space`, as `char::is_whitespace` decides it.
pub open spec fn whitespace(c: char) -> bool {
    ||| ('\t' <= c && c <= '\r')
    ||| c == ' '
    ||| c == '\u{85}'
    ||| c == '\u{a0}'
    ||| c == '\u{1680}'
    ||| ('\u{2000}' <= c && c <= '\u{200a}')
    ||| c == '\u{2028}'
    ||| c == '\u{2029}'
    ||| c == '\u{202f}'
    ||| c == '\u{205f}'
    ||| c == '\u{3000}'
}

/// Number of leading whitespace characters of `s`.
pub open spec fn leading_ws(s: Seq<char>) -> nat
    decreases s.len(),
{
    if s.len() > 0 && whitespace(s[0]) {
        1 + leading_ws(s.drop_first())
    } else {
        0
    }
}

/// Number of trailing whitespace characters of `s`.
pub open spec fn trailing_ws(s: Seq<char>) -> nat
    decreases s.len(),
{
    if s.len() > 0 && whitespace(s.last()) {
        1 + trailing_ws(s.drop_last())
    } else {
        0
    }
}

/// `s` without leading and trailing whitespace, as `str::trim` computes it.
pub open spec fn trimmed(s: Seq<char>) -> Seq<char> {
    let a = leading_ws(s) as int;
    if a == s.len() {
        Seq::empty()
    } else {
        s.subrange(a, s.len() - trailing_ws(s))
    }
}

/// Number of leading copies of `c` in `s`.
pub open spec fn leading_run(s: Seq<char>, c: char) -> nat
    decreases s.len(),
{
    if s.len() > 0 && s[0] == c {
        1 + leading_run(s.drop_first(), c)
    } else {
        0
    }
}

/// Number of trailing copies of `c` in `s`.
pub open spec fn trailing_run(s: Seq<char>, c: char) -> nat
    decreases s.len(),
{
    if s.len() > 0 && s.last() == c {
        1 + trailing_run(s.drop_last(), c)
    } else {
        0
    }
}

/// `s` without leading and trailing copies of `c` (`str::trim_matches`).
pub open spec fn strip_char(s: Seq<char>, c: char) -> Seq<char> {
    let a = leading_run(s, c) as int;
    if a == s.len() {
        Seq::empty()
    } else {
        s.subrange(a, s.len() - trailing_run(s, c))
    }
}

/// `s` without trailing copies of `c` (`str::trim_end_matches`).
pub open spec fn strip_end_char(s: Seq<char>, c: char) -> Seq<char> {
    s.subrange(0, s.len() - trailing_run(s, c))
}

/// `parts` joined with `sep` between consecutive parts (`[T]::join`).
pub open spec fn join_with(parts: Seq<Seq<char>>, sep: Seq<char>) -> Seq<char>
    decreases parts.len(),
{
    if parts.len() == 0 {
        Seq::empty()
    } else if parts.len() == 1 {
        parts[0]
    } else {
        join_with(parts.drop_last(), sep) + sep + parts.last()
    }
}

/// The pieces of `s` between occurrences of `c`, as `str::split` gives them.
pub open spec fn split_char(s: Seq<char>, c: char) -> Seq<Seq<char>>
    decreases s.len(),
{
    match first_occurrence_from(s, seq![c], 0) {
        Some(i) => {
            if 0 <= i < s.len() {
                seq![s.subrange(0, i)] + split_char(s.subrange(i + 1, s.len() as int), c)
            } else {
                seq![s]
            }
        },
        None => seq![s],
    }
}

/// Runs of copies of `c` never exceed the sequence.
pub proof fn lemma_runs_bounded(s: Seq<char>, c: char)
    ensures
        leading_run(s, c) <= s.len(),
        trailing_run(s, c) <= s.len(),
    decreases s.len(),
{
    if s.len() > 0 {
        lemma_runs_bounded(s.drop_first(), c);
        lemma_runs_bounded(s.drop_last(), c);
    }
}

/// A pushed sequence contains exactly what the sequence contained and the
/// pushed element.
pub proof fn lemma_push_contains<A>(s: Seq<A>, x: A, y: A)
    ensures
        s.push(x).contains(y) == (s.contains(y) || x == y),
{
    if s.push(x).contains(y) {
        let i = choose|i: int| 0 <= i < s.push(x).len() && s.push(x)[i] == y;
        if i < s.len() {
            assert(s[i] == y);
        }
    }
    if s.contains(y) {
        let i = choose|i: int| 0 <= i < s.len() && s[i] == y;
        assert(s.push(x)[i] == y);
    }
    if x == y {
        assert(s.push(x)[s.len() as int] == y);
    }
}

// ---------------------------------------------------------------------------
// Trusted std operations that vstd leaves unspecified
// ---------------------------------------------------------------------------

/// Every character of `s` is ASCII.
pub open spec fn ascii_text(s: Seq<char>) -> bool {
    forall|i: int| 0 <= i < s.len() ==> (#[trigger] s[i] as u32) < 128
}

/// The ASCII lower-case form of `c`: `A` to `Z` become `a` to `z`.
pub open spec fn ascii_lower(c: char) -> char {
    if 'A' <= c && c <= 'Z' {
        ((c as u32) + 32) as char
    } else {
        c
    }
}

/// The ASCII upper-case form of `c`: `a` to `z` become `A` to `Z`.
pub open spec fn ascii_upper(c: char) -> char {
    if 'a' <= c && c <= 'z' {
        ((c as u32) - 32) as char
    } else {
        c
    }
}

/// `str::to_lowercase`: the result is the Unicode lower-case form of `s`,
/// a function of `s` alone; on ASCII text it maps `A` to `Z` to `a` to `z`
/// character by character and leaves the rest.
#[verifier::external_body]
pub(crate) fn to_lower(s: &str) -> (r: String)
    ensures
        r@ == lowercase(s@),
        ascii_text(s@) ==> r@ == s@.map_values(|c: char| ascii_lower(c)),
{
    s.to_lowercase()
}

/// Unicode upper-casing of a character sequence, as `str::to_uppercase` computes it.
pub uninterp spec fn uppercase(s: Seq<char>) -> Seq<char>;

/// `str::to_uppercase`: the result is the Unicode upper-case form of `s`,
/// a function of `s` alone; on ASCII text it maps `a` to `z` to `A` to `Z`
/// character by character and leaves the rest.
#[verifier::external_body]
pub(crate) fn to_upper(s: &str) -> (r: String)
    ensures
        r@ == uppercase(s@),
        ascii_text(s@) ==> r@ == s@.map_values(|c: char| ascii_upper(c)),
{
    s.to_uppercase()
}

/// `char::is_alphanumeric`: whether `c` is Unicode alphabetic or numeric.
#[verifier::external_body]
pub(crate) fn is_alphanumeric(c: char) -> (b: bool)
    ensures
        b == alphanumeric(c),
{
    c.is_alphanumeric()
}

/// `String::push`: appends one character.
#[verifier::external_body]
pub(crate) fn push_char(s: &mut String, c: char)
    ensures
        final(s)@ == old(s)@.push(c),
{
    s.push(c)
}

/// The text `format!("{:?}", s)` gives for a string: `s` in double quotes
/// with Rust's debug escapes; a function of `s` alone.
pub uninterp spec fn debug_text(s: Seq<char>) -> Seq<char>;

/// `<str as Debug>::fmt`, through `format!("{:?}", s)`.
#[verifier::external_body]
pub(crate) fn debug_quoted(s: &str) -> (r: String)
    ensures
        r@ == debug_text(s@),
{
    format!("{:?}", s)
}

/// An owned copy of `s`.
pub(crate) fn owned(s: &str) -> (r: String)
    ensures
        r@ == s@,
{
    s.to_owned()
}

// ---------------------------------------------------------------------------
// Verified helpers
// ---------------------------------------------------------------------------

/// The characters of `s`, in order.
pub fn chars_of(s: &str) -> (v: Vec<char>)
    ensures
        v@ == s@,
{
    let mut v: Vec<char> = Vec::new();
    for c in it: s.chars()
        invariant
            v@ == it.seq().take(it.index() as int),
    {
        v.push(c);
    }
    v
}

/// Appends every character of `v` to `s`.
pub fn push_chars(s: &mut String, v: &Vec<char>)
    ensures
        final(s)@ == old(s)@ + v@,
{
    let ghost start = s@;
    let mut i: usize = 0;
    while i < v.len()
        invariant
            i <= v.len(),
            s@ == start + v@.take(i as int),
        decreases v.len() - i,
    {
        push_char(s, v[i]);
        i += 1;
        assert(v@.take(i as int) == v@.take((i - 1) as int).push(v@[i - 1]));
    }
    assert(v@.take(v.len() as int) == v@);
}

/// An owned string made of the characters of `v`.
pub fn string_of(v: &Vec<char>) -> (s: String)
    ensures
        s@ == v@,
{
    let mut s = String::new();
    push_chars(&mut s, v);
    s
}

/// Appends the characters of `t` to `s`.
pub fn push_str(s: &mut String, t: &str)
    ensures
        final(s)@ == old(s)@ + t@,
{
    let v = chars_of(t);
    push_chars(s, &v);
}

/// The concatenation of `a` and `b`.
pub fn concat2(a: &str, b: &str) -> (s: String)
    ensures
        s@ == a@ + b@,
{
    let mut s = owned(a);
    push_str(&mut s, b);
    s
}

/// Whether `p` occurs in `s` at index `i`.
pub fn occurs_at_exec(s: &Vec<char>, p: &Vec<char>, i: usize) -> (b: bool)
    ensures
        b == occurs_at(s@, p@, i as int),
{
    if i > s.len() || p.len() > s.len() - i {
        return false;
    }
    let mut j: usize = 0;
    while j < p.len()
        invariant
            j <= p.len(),
            i + p.len() <= s.len(),
            forall|k: int| 0 <= k < j ==> s@[i + k] == p@[k],
        decreases p.len() - j,
    {
        if s[i + j] != p[j] {
            assert(s@.subrange(i as int, i + p.len())[j as int] != p@[j as int]);
            return false;
        }
        j += 1;
    }
    assert(s@.subrange(i as int, i + p.len()) =~= p@);
    true
}

/// Index of the first occurrence of `p` in `s` at or after `start`.
pub fn find_from(s: &Vec<char>, p: &Vec<char>, start: usize) -> (r: Option<usize>)
    ensures
        match r {
            Some(i) => first_occurrence_from(s@, p@, start as int) == Some(i as int),
            None => first_occurrence_from(s@, p@, start as int) is None,
        },
{
    if p.len() > s.len() {
        proof { lemma_first_occurrence_none(s@, p@, start as int); }
        return None;
    }
    let last = s.len() - p.len();
    let mut i = start;
    while i <= last
        invariant
            last == s.len() - p.len(),
            p.len() <= s.len(),
            start <= i,
            first_occurrence_from(s@, p@, start as int) == first_occurrence_from(s@, p@, i as int),
        decreases last + 1 - i,
    {
        if occurs_at_exec(s, p, i) {
            return Some(i);
        }
        if i == last {
            proof { lemma_first_occurrence_past(s@, p@, (i + 1) as int); }
            return None;
        }
        i += 1;
    }
    proof { lemma_first_occurrence_past(s@, p@, i as int); }
    None
}

proof fn lemma_first_occurrence_past(s: Seq<char>, p: Seq<char>, start: int)
    requires
        start + p.len() > s.len(),
    ensures
        first_occurrence_from(s, p, start) is None,
{
}

proof fn lemma_first_occurrence_none(s: Seq<char>, p: Seq<char>, start: int)
    requires
        p.len() > s.len(),
    ensures
        first_occurrence_from(s, p, start) is None,
{
}

/// A first occurrence at or after `start` is an occurrence, and nothing
/// between `start` and it is one.
pub proof fn lemma_first_occurrence(s: Seq<char>, p: Seq<char>, start: int)
    ensures
        first_occurrence_from(s, p, start) matches Some(i) ==> start <= i && occurs_at(s, p, i)
            && forall|k: int| start <= k < i ==> !occurs_at(s, p, k),
        first_occurrence_from(s, p, start) is None ==> start >= 0 ==> forall|k: int|
            start <= k ==> !occurs_at(s, p, k),
    decreases s.len() + 1 - start,
{
    if start < 0 || start + p.len() > s.len() {
    } else if occurs_at(s, p, start) {
    } else {
        lemma_first_occurrence(s, p, start + 1);
    }
}

/// The characters of `s` from index `a` up to (not including) `b`.
pub fn slice_chars(s: &Vec<char>, a: usize, b: usize) -> (r: Vec<char>)
    requires
        a <= b <= s.len(),
    ensures
        r@ == s@.subrange(a as int, b as int),
{
    let mut r: Vec<char> = Vec::new();
    let mut k = a;
    while k < b
        invariant
            a <= k <= b <= s.len(),
            r@ == s@.subrange(a as int, k as int),
        decreases b - k,
    {
        r.push(s[k]);
        k += 1;
        assert(s@.subrange(a as int, k as int) =~= s@.subrange(a as int, k - 1).push(s@[k - 1]));
    }
    r
}

/// Whether `p` occurs anywhere in `s`.
pub fn contains_chars(s: &Vec<char>, p: &Vec<char>) -> (b: bool)
    ensures
        b == contains_seq(s@, p@),
{
    let r = find_from(s, p, 0);
    proof { lemma_first_occurrence(s@, p@, 0); }
    r.is_some()
}

/// Whether `p` occurs anywhere in `s` (`str::contains`).
pub fn str_contains(s: &str, p: &str) -> (b: bool)
    ensures
        b == contains_seq(s@, p@),
{
    let sv = chars_of(s);
    let pv = chars_of(p);
    contains_chars(&sv, &pv)
}

/// Whether `p` is a prefix of `s` (`str::starts_with`).
pub fn starts_with(s: &str, p: &str) -> (b: bool)
    ensures
        b == has_prefix(s@, p@),
{
    let sv = chars_of(s);
    let pv = chars_of(p);
    occurs_at_exec(&sv, &pv, 0)
}

/// Whether `p` is a suffix of `s` (`str::ends_with`).
pub fn ends_with_chars(s: &Vec<char>, p: &Vec<char>) -> (b: bool)
    ensures
        b == has_suffix(s@, p@),
{
    if p.len() > s.len() {
        return false;
    }
    occurs_at_exec(s, p, s.len() - p.len())
}

/// Whether `p` is a suffix of `s` (`str::ends_with`).
pub fn ends_with(s: &str, p: &str) -> (b: bool)
    ensures
        b == has_suffix(s@, p@),
{
    let sv = chars_of(s);
    let pv = chars_of(p);
    ends_with_chars(&sv, &pv)
}

/// Equality of two character vectors.
pub fn chars_eq(a: &Vec<char>, b: &Vec<char>) -> (r: bool)
    ensures
        r == (a@ == b@),
{
    if a.len() != b.len() {
        return false;
    }
    let r = occurs_at_exec(a, b, 0);
    assert(a@.subrange(0, b@.len() as int) =~= a@);
    r
}

/// Equality of two strings by their characters.
pub fn str_eq(a: &str, b: &str) -> (r: bool)
    ensures
        r == (a@ == b@),
{
    let av = chars_of(a);
    let bv = chars_of(b);
    chars_eq(&av, &bv)
}

/// Appends the decimal representation of `n` to `s`.
pub fn push_decimal(s: &mut String, n: u64)
    ensures
        final(s)@ == old(s)@ + decimal(n as nat),
    decreases n,
{
    if n >= 10 {
        push_decimal(s, n / 10);
    }
    let d: u8 = (n % 10) as u8;
    let c: char = (48u8 + d) as char;
    assert(c == digit_char(n as nat)) by {
        assert((n as nat) % 10 == d as nat);
    }
    push_char(s, c);
    assert(decimal(n as nat) == if n < 10 {
        seq![digit_char(n as nat)]
    } else {
        decimal((n / 10) as nat).push(digit_char((n % 10) as nat))
    });
}

/// Decimal representation of the signed `x`, with a leading `-` when negative.
pub open spec fn signed_decimal(x: int) -> Seq<char> {
    if x < 0 {
        seq!['-'] + decimal((-x) as nat)
    } else {
        decimal(x as nat)
    }
}

/// Length in bytes of the UTF-8 encoding of `s`, as `str::len` gives it.
pub open spec fn utf8_len(s: Seq<char>) -> nat {
    (vstd::utf8::encode_utf8(s).len() as usize) as nat
}

/// `true` or `false`, as `bool` displays.
pub open spec fn bool_text(b: bool) -> Seq<char> {
    if b {
        "true"@
    } else {
        "false"@
    }
}

/// Appends the decimal representation of the signed `x` to `s`.
pub fn push_signed(s: &mut String, x: i64)
    ensures
        final(s)@ == old(s)@ + signed_decimal(x as int),
{
    if x < 0 {
        push_char(s, '-');
        let m: u64 = if x == i64::MIN {
            9223372036854775808u64
        } else {
            (-x) as u64
        };
        push_decimal(s, m);
        assert(seq!['-'] + decimal(m as nat) == signed_decimal(x as int));
    } else {
        push_decimal(s, x as u64);
    }
}

/// Appends `true` or `false` to `s`.
pub fn push_bool(s: &mut String, b: bool)
    ensures
        final(s)@ == old(s)@ + bool_text(b),
{
    if b {
        push_str(s, "true");
    } else {
        push_str(s, "false");
    }
}

/// The decimal representation of `n`.
pub fn decimal_string(n: u64) -> (s: String)
    ensures
        s@ == decimal(n as nat),
{
    let mut s = String::new();
    push_decimal(&mut s, n);
    s
}

/// The views of a sequence of strings.
pub open spec fn views(parts: Seq<String>) -> Seq<Seq<char>> {
    parts.map_values(|p: String| p@)
}

/// The strings of `parts` joined with `sep` between them (`[String]::join`).
pub fn join_strings(parts: &Vec<String>, sep: &str) -> (r: String)
    ensures
        r@ == join_with(views(parts@), sep@),
{
    let mut out = String::new();
    let mut i: usize = 0;
    while i < parts.len()
        invariant
            i <= parts.len(),
            out@ == join_with(views(parts@.take(i as int)), sep@),
        decreases parts.len() - i,
    {
        proof {
            let t = parts@.take(i as int + 1);
            assert(views(t).drop_last() == views(parts@.take(i as int)));
            assert(views(t).last() == parts@[i as int]@);
        }
        if i > 0 {
            push_str(&mut out, sep);
        } else {
            assert(views(parts@.take(0)).len() == 0);
        }
        push_str(&mut out, parts[i].as_str());
        i += 1;
    }
    assert(parts@.take(parts.len() as int) == parts@);
    out
}

/// Whether `c` is Unicode white space (`char::is_whitespace`).
pub fn is_whitespace(c: char) -> (b: bool)
    ensures
        b == whitespace(c),
{
    ('\t' <= c && c <= '\r') || c == ' ' || c == '\u{85}' || c == '\u{a0}' || c == '\u{1680}'
        || ('\u{2000}' <= c && c <= '\u{200a}') || c == '\u{2028}' || c == '\u{2029}'
        || c == '\u{202f}' || c == '\u{205f}' || c == '\u{3000}'
}

/// `s` with every non-overlapping occurrence of the non-empty `p` replaced by `r`.
pub fn replace_chars(s: &Vec<char>, p: &Vec<char>, r: &Vec<char>) -> (out: Vec<char>)
    requires
        p.len() > 0,
    ensures
        out@ == replace_all(s@, p@, r@),
{
    let mut out: Vec<char> = Vec::new();
    let mut i: usize = 0;
    assert(s@.subrange(0, s.len() as int) =~= s@);
    assert(out@ + replace_all(s@, p@, r@) =~= replace_all(s@, p@, r@));
    while i < s.len()
        invariant
            i <= s.len(),
            p.len() > 0,
            out@ + replace_all(s@.subrange(i as int, s.len() as int), p@, r@) == replace_all(
                s@,
                p@,
                r@,
            ),
        decreases s.len() - i,
    {
        let ghost rest = s@.subrange(i as int, s.len() as int);
        if occurs_at_exec(s, p, i) {
            assert(rest.subrange(0, p.len() as int) =~= s@.subrange(i as int, i + p.len()));
            assert(rest.subrange(p.len() as int, rest.len() as int) =~= s@.subrange(
                i + p.len(),
                s.len() as int,
            ));
            let mut j: usize = 0;
            let ghost before = out@;
            while j < r.len()
                invariant
                    j <= r.len(),
                    out@ == before + r@.take(j as int),
                decreases r.len() - j,
            {
                out.push(r[j]);
                j += 1;
                assert(r@.take(j as int) == r@.take((j - 1) as int).push(r@[j - 1]));
            }
            assert(r@.take(r.len() as int) == r@);
            assert(out@ + replace_all(s@.subrange(i + p.len(), s.len() as int), p@, r@) =~= before
                + replace_all(rest, p@, r@));
            i = i + p.len();
        } else {
            proof {
                if rest.len() >= p.len() {
                    assert(rest.subrange(0, p.len() as int) != p@) by {
                        if rest.subrange(0, p.len() as int) == p@ {
                            assert(s@.subrange(i as int, i + p.len()) =~= rest.subrange(
                                0,
                                p.len() as int,
                            ));
                        }
                    }
                }
            }
            let ghost before = out@;
            out.push(s[i]);
            proof {
                if rest.len() < p.len() {
                    assert(replace_all(rest, p@, r@) == rest);
                    assert(replace_all(rest.drop_first(), p@, r@) == rest.drop_first());
                }
                assert(rest.drop_first() =~= s@.subrange(i + 1, s.len() as int));
                assert(replace_all(rest, p@, r@) =~= seq![s@[i as int]] + replace_all(
                    rest.drop_first(),
                    p@,
                    r@,
                ));
                assert(out@ + replace_all(s@.subrange(i + 1, s.len() as int), p@, r@) =~= before
                    + replace_all(rest, p@, r@));
            }
            i = i + 1;
        }
    }
    assert(replace_all(s@.subrange(s.len() as int, s.len() as int), p@, r@) =~= Seq::<
        char,
    >::empty());
    assert(out@ + Seq::<char>::empty() =~= out@);
    out
}

/// `s` without leading and trailing Unicode white space (`str::trim`).
pub fn trim_chars(s: &Vec<char>) -> (out: Vec<char>)
    ensures
        out@ == trimmed(s@),
{
    let mut a: usize = 0;
    assert(s@.subrange(0, s.len() as int) =~= s@);
    while a < s.len() && is_whitespace(s[a])
        invariant
            a <= s.len(),
            leading_ws(s@) == a + leading_ws(s@.subrange(a as int, s.len() as int)),
        decreases s.len() - a,
    {
        assert(s@.subrange(a as int, s.len() as int).drop_first() =~= s@.subrange(
            a + 1,
            s.len() as int,
        ));
        a += 1;
    }
    assert(leading_ws(s@.subrange(a as int, s.len() as int)) == 0);
    if a == s.len() {
        return Vec::new();
    }
    let mut b: usize = s.len();
    assert(s@.subrange(0, s.len() as int) =~= s@);
    while b > a && is_whitespace(s[b - 1])
        invariant
            a < s.len(),
            a < b <= s.len(),
            !whitespace(s@[a as int]),
            trailing_ws(s@) == (s.len() - b) + trailing_ws(s@.subrange(0, b as int)),
        decreases b,
    {
        assert(s@.subrange(0, b as int).drop_last() =~= s@.subrange(0, b - 1));
        b -= 1;
    }
    assert(trailing_ws(s@.subrange(0, b as int)) == 0);
    let mut out: Vec<char> = Vec::new();
    let mut k = a;
    while k < b
        invariant
            a <= k <= b <= s.len(),
            out@ == s@.subrange(a as int, k as int),
        decreases b - k,
    {
        out.push(s[k]);
        k += 1;
        assert(s@.subrange(a as int, k as int) =~= s@.subrange(a as int, k - 1).push(s@[k - 1]));
    }
    out
}

/// The pieces of `s` between occurrences of `c` (`str::split`).
pub fn split_char_exec(s: &str, c: char) -> (r: Vec<String>)
    ensures
        r@.map_values(|x: String| x@) == split_char(s@, c),
{
    let mut rest = chars_of(s);
    let mut out: Vec<String> = Vec::new();
    let pat = vec![c];
    assert(pat@ =~= seq![c]);
    loop
        invariant
            pat@ == seq![c],
            out@.map_values(|x: String| x@) + split_char(rest@, c) == split_char(s@, c),
        decreases rest@.len(),
    {
        let ghost before = rest@;
        let ghost done = out@.map_values(|x: String| x@);
        match find_from(&rest, &pat, 0) {
            Some(i) => {
                proof {
                    lemma_first_occurrence(rest@, pat@, 0);
                }
                let n = rest.len();
                assert(i + 1 <= n);
                let piece = slice_chars(&rest, 0, i);
                let tail = slice_chars(&rest, i + 1, n);
                out.push(string_of(&piece));
                proof {
                    assert(split_char(before, c) == seq![piece@] + split_char(tail@, c));
                    assert(out@.map_values(|x: String| x@) =~= done.push(piece@));
                    assert(done + (seq![piece@] + split_char(tail@, c)) =~= done.push(piece@)
                        + split_char(tail@, c));
                }
                rest = tail;
            },
            None => {
                out.push(string_of(&rest));
                proof {
                    assert(split_char(before, c) == seq![before]);
                    assert(out@.map_values(|x: String| x@) =~= done.push(before));
                    assert(done + seq![before] =~= done.push(before));
                }
                return out;
            },
        }
    }
}

/// `s` without leading and trailing copies of `c` (`str::trim_matches`).
pub fn strip_char_exec(s: &Vec<char>, c: char) -> (out: Vec<char>)
    ensures
        out@ == strip_char(s@, c),
{
    proof { lemma_runs_bounded(s@, c); }
    let mut a: usize = 0;
    assert(s@.subrange(0, s.len() as int) =~= s@);
    while a < s.len() && s[a] == c
        invariant
            a <= s.len(),
            leading_run(s@, c) == a + leading_run(s@.subrange(a as int, s.len() as int), c),
        decreases s.len() - a,
    {
        assert(s@.subrange(a as int, s.len() as int).drop_first() =~= s@.subrange(
            a + 1,
            s.len() as int,
        ));
        a += 1;
    }
    assert(leading_run(s@.subrange(a as int, s.len() as int), c) == 0);
    if a == s.len() {
        return Vec::new();
    }
    let mut b: usize = s.len();
    while b > a && s[b - 1] == c
        invariant
            a < s.len(),
            a < b <= s.len(),
            s@[a as int] != c,
            trailing_run(s@, c) == (s.len() - b) + trailing_run(s@.subrange(0, b as int), c),
        decreases b,
    {
        assert(s@.subrange(0, b as int).drop_last() =~= s@.subrange(0, b - 1));
        b -= 1;
    }
    assert(trailing_run(s@.subrange(0, b as int), c) == 0);
    slice_chars(s, a, b)
}

/// `s` without trailing copies of `c` (`str::trim_end_matches`).
pub fn strip_end_char_exec(s: &Vec<char>, c: char) -> (out: Vec<char>)
    ensures
        out@ == strip_end_char(s@, c),
{
    proof { lemma_runs_bounded(s@, c); }
    let mut b: usize = s.len();
    assert(s@.subrange(0, s.len() as int) =~= s@);
    while b > 0 && s[b - 1] == c
        invariant
            b <= s.len(),
            trailing_run(s@, c) == (s.len() - b) + trailing_run(s@.subrange(0, b as int), c),
        decreases b,
    {
        assert(s@.subrange(0, b as int).drop_last() =~= s@.subrange(0, b - 1));
        b -= 1;
    }
    assert(trailing_run(s@.subrange(0, b as int), c) == 0);
    slice_chars(s, 0, b)
}

} // verus!

verus! {

/// Replacing a pattern that occurs nowhere leaves the sequence unchanged.
pub proof fn lemma_replace_absent(s: Seq<char>, p: Seq<char>, r: Seq<char>)
    requires
        forall|i: int| !occurs_at(s, p, i),
    ensures
        replace_all(s, p, r) == s,
    decreases s.len(),
{
    if p.len() == 0 || s.len() < p.len() {
    } else {
        assert(!occurs_at(s, p, 0));
        assert forall|i: int| !occurs_at(s.drop_first(), p, i) by {
            if occurs_at(s.drop_first(), p, i) {
                assert(s.subrange(i + 1, i + 1 + p.len()) =~= s.drop_first().subrange(i, i + p.len()));
                assert(occurs_at(s, p, i + 1));
            }
        }
        lemma_replace_absent(s.drop_first(), p, r);
        assert(seq![s[0]] + s.drop_first() =~= s);
    }
}

/// A pattern whose first character does not occur in `s` occurs nowhere in it.
pub proof fn lemma_absent_first_char(s: Seq<char>, p: Seq<char>)
    requires
        p.len() > 0,
        !s.contains(p[0]),
    ensures
        forall|i: int| !occurs_at(s, p, i),
{
    assert forall|i: int| !occurs_at(s, p, i) by {
        if occurs_at(s, p, i) {
            assert(s.subrange(i, i + p.len())[0] == s[i]);
            assert(s.contains(s[i]));
        }
    }
}

} // verus!
