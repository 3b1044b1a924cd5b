//! Network intelligence: captured requests, authentication detection and
//! URL-template inference for API discovery.

use vstd::prelude::*;
use crate::json_schema::{infer_json_schema, json_body_shape, parsed_json_shape, schema_of, schema_json, schema_text, JsonShape, Schema};
use crate::text::{
    lowercase, has_prefix, to_lower, chars_of, str_eq, starts_with, owned, string_of,
    first_occurrence_from, find_from, lemma_first_occurrence, slice_chars, push_char, occurs_at,
    push_chars,
};

verus! {

/// Authentication type detected from request headers.
#[derive(Debug, Clone, Copy, PartialEq, Eq, Structural)]
pub enum AuthType {
    /// No authentication detected.
    NoAuth,
    /// Bearer token in `Authorization`.
    Bearer,
    /// Session cookie present.
    Cookie,
    /// API key header (`x-api-key` / `api-key`).
    ApiKey,
    /// HTTP Basic authentication.
    Basic,
}

/// The authentication a single header shows on its own, if any: an
/// `Authorization` header with a bearer or basic credential, or an API-key
/// header (names and values compared in lower case).
pub open spec fn header_auth(name: Seq<char>, value: Seq<char>) -> Option<AuthType> {
    let n = lowercase(name);
    let v = lowercase(value);
    if n == "authorization"@ && has_prefix(v, "bearer "@) {
        Some(AuthType::Bearer)
    } else if n == "authorization"@ && has_prefix(v, "basic "@) {
        Some(AuthType::Basic)
    } else if n == "x-api-key"@ || n == "api-key"@ {
        Some(AuthType::ApiKey)
    } else {
        None
    }
}

/// Some header of `hs` shows authentication `a` on its own.
pub open spec fn shows_auth(hs: Seq<(String, String)>, a: AuthType) -> bool {
    exists|i: int| 0 <= i < hs.len() && #[trigger] header_auth(hs[i].0@, hs[i].1@) == Some(a)
}

/// Some header of `hs` is named `cookie` (in lower case).
pub open spec fn has_cookie(hs: Seq<(String, String)>) -> bool {
    exists|i: int| 0 <= i < hs.len() && lowercase(#[trigger] hs[i].0@) == "cookie"@
}

/// Authentication detected from headers, in priority order whatever the
/// order of the headers: a bearer `Authorization`, then a basic one, then
/// an API-key header, then a cookie, else none.
pub open spec fn auth_of(hs: Seq<(String, String)>) -> AuthType {
    if shows_auth(hs, AuthType::Bearer) {
        AuthType::Bearer
    } else if shows_auth(hs, AuthType::Basic) {
        AuthType::Basic
    } else if shows_auth(hs, AuthType::ApiKey) {
        AuthType::ApiKey
    } else if has_cookie(hs) {
        AuthType::Cookie
    } else {
        AuthType::NoAuth
    }
}

fn header_auth_exec(name: &str, value: &str) -> (r: Option<AuthType>)
    ensures
        r == header_auth(name@, value@),
{
    let n = to_lower(name);
    let v = to_lower(value);
    if str_eq(n.as_str(), "authorization") {
        if starts_with(v.as_str(), "bearer ") {
            return Some(AuthType::Bearer);
        }
        if starts_with(v.as_str(), "basic ") {
            return Some(AuthType::Basic);
        }
    }
    if str_eq(n.as_str(), "x-api-key") || str_eq(n.as_str(), "api-key") {
        return Some(AuthType::ApiKey);
    }
    None
}

/// Detect the authentication type from request headers, in priority order
/// Bearer, Basic, API key, Cookie, none, whatever the order of the headers.
pub fn detect_auth_type(headers: &[(String, String)]) -> (r: AuthType)
    ensures
        r == auth_of(headers@),
{
    let ghost hs = headers@;
    let mut bearer = false;
    let mut basic = false;
    let mut api_key = false;
    let mut cookie = false;
    let mut i: usize = 0;
    while i < headers.len()
        invariant
            i <= headers.len(),
            hs == headers@,
            bearer == (exists|k: int| 0 <= k < i && #[trigger] header_auth(hs[k].0@, hs[k].1@) == Some(AuthType::Bearer)),
            basic == (exists|k: int| 0 <= k < i && #[trigger] header_auth(hs[k].0@, hs[k].1@) == Some(AuthType::Basic)),
            api_key == (exists|k: int| 0 <= k < i && #[trigger] header_auth(hs[k].0@, hs[k].1@) == Some(AuthType::ApiKey)),
            cookie == (exists|k: int| 0 <= k < i && lowercase(#[trigger] hs[k].0@) == "cookie"@),
        decreases headers.len() - i,
    {
        let a = header_auth_exec(headers[i].0.as_str(), headers[i].1.as_str());
        let n = to_lower(headers[i].0.as_str());
        let c = str_eq(n.as_str(), "cookie");
        proof {
            assert(header_auth(hs[i as int].0@, hs[i as int].1@) == a);
            assert(lowercase(hs[i as int].0@) == n@);
        }
        match a {
            Some(AuthType::Bearer) => { bearer = true; },
            Some(AuthType::Basic) => { basic = true; },
            Some(AuthType::ApiKey) => { api_key = true; },
            _ => {},
        }
        if c {
            cookie = true;
        }
        i += 1;
    }
    if bearer {
        AuthType::Bearer
    } else if basic {
        AuthType::Basic
    } else if api_key {
        AuthType::ApiKey
    } else if cookie {
        AuthType::Cookie
    } else {
        AuthType::NoAuth
    }
}

/// A bearer, basic or API-key header wins over a cookie, wherever it stands
/// among the headers.
pub proof fn lemma_token_beats_cookie(hs: Seq<(String, String)>, i: int)
    requires
        0 <= i < hs.len(),
        header_auth(hs[i].0@, hs[i].1@) is Some,
    ensures
        auth_of(hs) != AuthType::Cookie,
{
    let a = header_auth(hs[i].0@, hs[i].1@)->0;
    assert(a == AuthType::Bearer || a == AuthType::Basic || a == AuthType::ApiKey);
    assert(shows_auth(hs, a));
}

/// A bearer `Authorization` header decides, whatever else the headers hold
/// and in whatever order.
pub proof fn lemma_bearer_first(hs: Seq<(String, String)>, i: int)
    requires
        0 <= i < hs.len(),
        header_auth(hs[i].0@, hs[i].1@) == Some(AuthType::Bearer),
    ensures
        auth_of(hs) == AuthType::Bearer,
{
    assert(shows_auth(hs, AuthType::Bearer));
}

// ---------------------------------------------------------------------------
// URL templates
// ---------------------------------------------------------------------------

/// The path of `url` as the `url` crate parses it, or `None` when it does
/// not parse; a function of the text alone.
pub uninterp spec fn parsed_url_path(url: Seq<char>) -> Option<Seq<char>>;

/// `url::Url::parse(raw)` then `path()`: the path of the parsed URL. A
/// text starting with `/` is relative, which `Url::parse` refuses without a
/// base; the path of an `http` or `https` URL (never cannot-be-a-base)
/// starts with `/`.
#[verifier::external_body]
pub(crate) fn url_path(raw: &str) -> (r: Option<String>)
    ensures
        match r {
            Some(p) => parsed_url_path(raw@) == Some(p@),
            None => parsed_url_path(raw@) is None,
        },
        has_prefix(raw@, "/"@) ==> r is None,
        has_prefix(raw@, "http://"@) || has_prefix(raw@, "https://"@) ==> (r matches Some(p) ==> has_prefix(p@, "/"@)),
{
    match url::Url::parse(raw) {
        Ok(u) => Some(u.path().to_string()),
        Err(_) => None,
    }
}

/// Whether regular expression `pattern` matches somewhere in `text` (false
/// when the pattern does not compile); a function of the two texts alone.
pub uninterp spec fn regex_is_match(pattern: Seq<char>, text: Seq<char>) -> bool;

/// `regex::Regex::new(pattern)` then `is_match(text)`.
#[verifier::external_body]
fn regex_matches(pattern: &str, text: &str) -> (b: bool)
    ensures
        b == regex_is_match(pattern@, text@),
        pattern@ == uuid_pattern() ==> b == uuid_shaped(text@),
        pattern@ == hex_pattern() ==> b == long_hex(text@),
{
    match regex::Regex::new(pattern) {
        Ok(re) => re.is_match(text),
        Err(_) => false,
    }
}

/// `c` is an ASCII hexadecimal digit.
pub open spec fn hex_char(c: char) -> bool {
    ('0' <= c && c <= '9') || ('a' <= c && c <= 'f') || ('A' <= c && c <= 'F')
}

/// `t` is a hyphenated UUID: 36 characters, hyphens at 8, 13, 18 and 23,
/// hex digits elsewhere (what `uuid_pattern` matches).
pub open spec fn uuid_shaped(t: Seq<char>) -> bool {
    &&& t.len() == 36
    &&& forall|i: int| 0 <= i < 36 ==> if i == 8 || i == 13 || i == 18 || i == 23 {
        #[trigger] t[i] == '-'
    } else {
        hex_char(t[i])
    }
}

/// `t` is 32 or more hex digits (what `hex_pattern` matches).
pub open spec fn long_hex(t: Seq<char>) -> bool {
    t.len() >= 32 && forall|i: int| 0 <= i < t.len() ==> hex_char(#[trigger] t[i])
}

/// Pattern of a UUID-shaped path segment.
pub open spec fn uuid_pattern() -> Seq<char> {
    "^[0-9a-fA-F]{8}-[0-9a-fA-F]{4}-[0-9a-fA-F]{4}-[0-9a-fA-F]{4}-[0-9a-fA-F]{12}$"@
}

/// Pattern of a long hex path segment.
pub open spec fn hex_pattern() -> Seq<char> {
    "^[0-9a-fA-F]{32,}$"@
}

/// `c` is an ASCII digit.
pub open spec fn is_digit(c: char) -> bool {
    '0' <= c && c <= '9'
}

/// Value of a string of ASCII digits.
pub open spec fn digits_value(s: Seq<char>) -> nat
    decreases s.len(),
{
    if s.len() == 0 {
        0
    } else {
        digits_value(s.drop_last()) * 10 + ((s.last() as nat) - ('0' as nat)) as nat
    }
}

/// `s` parses as a `u64` (`str::parse::<u64>`): an optional `+`, then one
/// or more ASCII digits whose value fits in 64 bits.
pub open spec fn parses_u64(s: Seq<char>) -> bool {
    let d = without_plus(s);
    &&& d.len() > 0
    &&& all_digits(d)
    &&& digits_value(d) <= u64::MAX
}

/// `s` without one leading `+`, if it has one.
pub open spec fn without_plus(s: Seq<char>) -> Seq<char> {
    if s.len() > 0 && s[0] == '+' {
        s.drop_first()
    } else {
        s
    }
}

/// Every character of `d` is an ASCII digit.
pub open spec fn all_digits(d: Seq<char>) -> bool {
    forall|i: int| 0 <= i < d.len() ==> is_digit(#[trigger] d[i])
}

fn parses_u64_exec(s: &Vec<char>) -> (b: bool)
    ensures
        b == parses_u64(s@),
{
    let n = s.len();
    let start: usize = if n > 0 && s[0] == '+' { 1 } else { 0 };
    let ghost d = without_plus(s@);
    assert(d =~= s@.subrange(start as int, n as int));
    if start >= n {
        return false;
    }
    let mut value: u64 = 0;
    let mut i = start;
    assert(s@.subrange(start as int, start as int) =~= Seq::<char>::empty());
    while i < n
        invariant
            n == s@.len(),
            start < n,
            start <= i <= n,
            d == s@.subrange(start as int, n as int),
            d == without_plus(s@),
            forall|k: int| start <= k < i ==> is_digit(#[trigger] s@[k]),
            value == digits_value(s@.subrange(start as int, i as int)),
        decreases n - i,
    {
        let c = s[i];
        assert(s@.subrange(start as int, i + 1).drop_last() =~= s@.subrange(start as int, i as int));
        assert(s@.subrange(start as int, i + 1).last() == c);
        if !('0' <= c && c <= '9') {
            proof {
                assert(d[i - start] == c);
                assert(!is_digit(d[i - start]));
            }
            return false;
        }
        let dg: u64 = (c as u32 - '0' as u32) as u64;
        assert(dg == (c as nat) - ('0' as nat));
        if value > (u64::MAX - dg) / 10 {
            proof {
                assert(value * 10 + dg > u64::MAX) by (nonlinear_arith)
                    requires
                        value > (u64::MAX - dg) / 10,
                        dg <= 9,
                ;
                let m = (i + 1 - start) as int;
                assert(d.take(m) =~= s@.subrange(start as int, i + 1));
                assert(digits_value(d.take(m)) == value * 10 + dg);
                if parses_u64(s@) {
                    lemma_prefix_value_le(d, m);
                    assert(false);
                }
            }
            return false;
        }
        value = value * 10 + dg;
        i += 1;
    }
    assert(s@.subrange(start as int, n as int) =~= d);
    assert forall|k: int| 0 <= k < d.len() implies is_digit(#[trigger] d[k]) by {
        assert(d[k] == s@[start + k]);
    }
    true
}

proof fn lemma_prefix_value_le(d: Seq<char>, n: int)
    requires
        0 <= n <= d.len(),
        all_digits(d),
    ensures
        digits_value(d.take(n)) <= digits_value(d),
    decreases d.len() - n,
{
    if n < d.len() {
        lemma_prefix_value_le(d, n + 1);
        assert(d.take(n + 1).drop_last() =~= d.take(n));
        assert(is_digit(d[n]));
    } else {
        assert(d.take(n) =~= d);
    }
}

/// The template text for one path segment.
pub open spec fn segment_template(seg: Seq<char>) -> Seq<char> {
    if seg.len() == 0 {
        Seq::empty()
    } else if parses_u64(seg) {
        "{id}"@
    } else if uuid_shaped(seg) {
        "{uuid}"@
    } else if long_hex(seg) {
        "{hash}"@
    } else {
        seg
    }
}

/// `s` up to (not including) its first `c`, or all of `s`.
pub open spec fn before_char(s: Seq<char>, c: char) -> Seq<char> {
    match first_occurrence_from(s, seq![c], 0) {
        Some(i) => s.subrange(0, i),
        None => s,
    }
}

/// The segments of `s` separated by `/`, as `str::split('/')` gives them.
pub open spec fn split_slash(s: Seq<char>) -> Seq<Seq<char>>
    decreases s.len(),
{
    match first_occurrence_from(s, seq!['/'], 0) {
        Some(i) => {
            if 0 <= i < s.len() {
                seq![s.subrange(0, i)] + split_slash(s.subrange(i + 1, s.len() as int))
            } else {
                seq![s]
            }
        },
        None => seq![s],
    }
}

/// Segments joined with `/`.
pub open spec fn join_slash(parts: Seq<Seq<char>>) -> Seq<char>
    decreases parts.len(),
{
    if parts.len() == 0 {
        Seq::empty()
    } else if parts.len() == 1 {
        parts[0]
    } else {
        join_slash(parts.drop_last()) + seq!['/'] + parts.last()
    }
}

/// Each segment replaced by its template.
pub open spec fn segment_templates(segs: Seq<Seq<char>>) -> Seq<Seq<char>> {
    segs.map_values(|x: Seq<char>| segment_template(x))
}

/// The URL template of `raw`: the parsed path (or the text before `?` when
/// it does not parse as a URL), without query string, with numeric, UUID
/// and long-hex segments replaced by `{id}`, `{uuid}` and `{hash}`.
pub open spec fn url_template(raw: Seq<char>) -> Seq<char> {
    let p0 = if has_prefix(raw, "/"@) {
        before_char(raw, '?')
    } else {
        match parsed_url_path(raw) {
            Some(p) => p,
            None => before_char(raw, '?'),
        }
    };
    let path = before_char(p0, '?');
    join_slash(segment_templates(split_slash(path)))
}

fn before_char_exec(s: &Vec<char>, c: char) -> (r: Vec<char>)
    ensures
        r@ == before_char(s@, c),
{
    let pat = vec![c];
    assert(pat@ =~= seq![c]);
    let end = match find_from(s, &pat, 0) {
        Some(i) => {
            proof { lemma_first_occurrence(s@, pat@, 0); }
            i
        },
        None => s.len(),
    };
    let mut r: Vec<char> = Vec::new();
    let mut k: usize = 0;
    while k < end
        invariant
            k <= end <= s.len(),
            r@ == s@.subrange(0, k as int),
        decreases end - k,
    {
        r.push(s[k]);
        k += 1;
        assert(s@.subrange(0, k as int) =~= s@.subrange(0, k - 1).push(s@[k - 1]));
    }
    proof {
        if end == s.len() {
            assert(s@.subrange(0, end as int) =~= s@);
        }
    }
    r
}

fn segment_template_exec(seg: &Vec<char>) -> (r: Vec<char>)
    ensures
        r@ == segment_template(seg@),
{
    if seg.len() == 0 {
        return Vec::new();
    }
    if parses_u64_exec(seg) {
        return chars_of("{id}");
    }
    let s = string_of(seg);
    if regex_matches("^[0-9a-fA-F]{8}-[0-9a-fA-F]{4}-[0-9a-fA-F]{4}-[0-9a-fA-F]{4}-[0-9a-fA-F]{12}$", s.as_str()) {
        return chars_of("{uuid}");
    }
    if regex_matches("^[0-9a-fA-F]{32,}$", s.as_str()) {
        return chars_of("{hash}");
    }
    let mut r: Vec<char> = Vec::new();
    let mut k: usize = 0;
    while k < seg.len()
        invariant
            k <= seg.len(),
            r@ == seg@.take(k as int),
        decreases seg.len() - k,
    {
        r.push(seg[k]);
        k += 1;
        assert(seg@.take(k as int) =~= seg@.take(k - 1).push(seg@[k - 1]));
    }
    assert(seg@.take(k as int) =~= seg@);
    r
}

/// Infer a URL template from a concrete URL: numeric segments become
/// `{id}`, UUID-shaped ones `{uuid}` and hex strings of 32 or more
/// characters `{hash}`; the query string is dropped.
pub fn infer_url_template(raw_url: &str) -> (r: String)
    ensures
        r@ == url_template(raw_url@),
{
    let rc = chars_of(raw_url);
    let p0: Vec<char> = match url_path(raw_url) {
        Some(p) => chars_of(p.as_str()),
        None => before_char_exec(&rc, '?'),
    };
    let path = before_char_exec(&p0, '?');
    let ghost segs = split_slash(path@);
    assert(join_slash(segment_templates(segs)) == url_template(raw_url@));
    let mut out = String::new();
    let mut rest: Vec<char> = path;
    let mut first = true;
    let ghost mut done: Seq<Seq<char>> = Seq::empty();
    let slash = vec!['/'];
    assert(slash@ =~= seq!['/']);
    loop
        invariant
            slash@ == seq!['/'],
            done + split_slash(rest@) == segs,
            join_slash(segment_templates(segs)) == url_template(raw_url@),
            first == (done.len() == 0),
            out@ == join_slash(segment_templates(done)),
        decreases rest@.len(),
    {
        let ghost before_rest = rest@;
        let ghost d_old = done;
        let found = find_from(&rest, &slash, 0);
        let (seg, tail_opt) = match found {
            Some(i) => {
                proof { lemma_first_occurrence(rest@, slash@, 0); }
                let n = rest.len();
                (slice_chars(&rest, 0, i), Some(slice_chars(&rest, i + 1, n)))
            },
            None => (slice_chars(&rest, 0, rest.len()), None),
        };
        let t = segment_template_exec(&seg);
        if !first {
            push_char(&mut out, '/');
        }
        push_chars(&mut out, &t);
        proof {
            done = d_old.push(seg@);
            let dm = segment_templates(done);
            assert(dm.drop_last() =~= segment_templates(d_old));
            if !first {
                assert(out@ =~= join_slash(dm.drop_last()) + seq!['/'] + dm.last());
            } else {
                assert(out@ =~= dm[0]);
            }
        }
        first = false;
        match tail_opt {
            Some(tail) => {
                proof {
                    assert(split_slash(before_rest) == seq![seg@] + split_slash(tail@));
                    assert(d_old + split_slash(before_rest) =~= done + split_slash(tail@));
                }
                rest = tail;
            },
            None => {
                proof {
                    assert(seg@ =~= before_rest);
                    assert(split_slash(before_rest) == seq![before_rest]);
                    assert(done =~= segs);
                }
                return out;
            },
        }
    }
}

// ---------------------------------------------------------------------------
// Templates are stable
// ---------------------------------------------------------------------------

/// `c` occurs nowhere in `s`.
pub open spec fn no_char(s: Seq<char>, c: char) -> bool {
    forall|i: int| 0 <= i < s.len() ==> s[i] != c
}

proof fn lemma_char_occurs(s: Seq<char>, c: char, i: int)
    ensures
        occurs_at(s, seq![c], i) <==> (0 <= i < s.len() && s[i] == c),
{
    if 0 <= i < s.len() {
        if s[i] == c {
            assert(s.subrange(i, i + 1) =~= seq![c]);
        } else {
            assert(s.subrange(i, i + 1)[0] == s[i]);
        }
    }
}

proof fn lemma_first_char(s: Seq<char>, c: char)
    ensures
        first_occurrence_from(s, seq![c], 0) matches Some(i) ==> 0 <= i < s.len() && s[i] == c
            && no_char(s.subrange(0, i), c),
        first_occurrence_from(s, seq![c], 0) is None ==> no_char(s, c),
{
    lemma_first_occurrence(s, seq![c], 0);
    match first_occurrence_from(s, seq![c], 0) {
        Some(i) => {
            lemma_char_occurs(s, c, i);
            assert forall|k: int| 0 <= k < s.subrange(0, i).len() implies s.subrange(0, i)[k] != c by {
                lemma_char_occurs(s, c, k);
            }
        },
        None => {
            assert forall|k: int| 0 <= k < s.len() implies s[k] != c by {
                lemma_char_occurs(s, c, k);
            }
        },
    }
}

proof fn lemma_before_char_slash(p0: Seq<char>)
    requires
        p0.len() > 0,
        p0[0] == '/',
    ensures
        before_char(p0, '?').len() > 0,
        before_char(p0, '?')[0] == '/',
        no_char(before_char(p0, '?'), '?'),
{
    lemma_first_char(p0, '?');
}

proof fn lemma_join_front(ts: Seq<Seq<char>>)
    requires
        ts.len() >= 2,
    ensures
        join_slash(ts) == ts[0] + seq!['/'] + join_slash(ts.drop_first()),
    decreases ts.len(),
{
    if ts.len() == 2 {
        assert(join_slash(ts.drop_last()) == ts.drop_last()[0]);
        assert(join_slash(ts.drop_first()) == ts.drop_first()[0]);
        assert(ts.drop_last()[0] == ts[0]);
        assert(ts.drop_first()[0] == ts[1]);
        assert(ts.last() == ts[1]);
    } else {
        lemma_join_front(ts.drop_last());
        assert(ts.drop_last().drop_first() =~= ts.drop_first().drop_last());
        assert(ts.drop_first().last() == ts.last());
        let a = ts[0];
        let m = join_slash(ts.drop_first().drop_last());
        assert(ts.drop_last()[0] == ts[0]);
        assert(join_slash(ts.drop_first()) == m + seq!['/'] + ts.drop_first().last());
        assert(a + seq!['/'] + m + seq!['/'] + ts.last() =~= a + seq!['/'] + (m + seq!['/'] + ts.last()));
    }
}

proof fn lemma_join_no_char(ts: Seq<Seq<char>>, c: char)
    requires
        c != '/',
        forall|k: int| 0 <= k < ts.len() ==> no_char(#[trigger] ts[k], c),
    ensures
        no_char(join_slash(ts), c),
    decreases ts.len(),
{
    if ts.len() >= 2 {
        lemma_join_no_char(ts.drop_last(), c);
        let j = join_slash(ts.drop_last());
        assert(no_char(ts[ts.len() - 1], c));
        assert forall|i: int| 0 <= i < join_slash(ts).len() implies join_slash(ts)[i] != c by {
            if i < j.len() {
                assert(join_slash(ts)[i] == j[i]);
            } else if i > j.len() {
                assert(join_slash(ts)[i] == ts.last()[i - j.len() - 1]);
            }
        }
    } else if ts.len() == 1 {
        assert(no_char(ts[0], c));
    }
}

proof fn lemma_split_join(ts: Seq<Seq<char>>)
    requires
        ts.len() >= 1,
        forall|k: int| 0 <= k < ts.len() ==> no_char(#[trigger] ts[k], '/'),
    ensures
        split_slash(join_slash(ts)) == ts,
    decreases ts.len(),
{
    if ts.len() == 1 {
        assert(no_char(ts[0], '/'));
        lemma_first_char(ts[0], '/');
        assert(seq![ts[0]] =~= ts);
    } else {
        lemma_join_front(ts);
        let rest = ts.drop_first();
        assert forall|k: int| 0 <= k < rest.len() implies no_char(#[trigger] rest[k], '/') by {
            assert(rest[k] == ts[k + 1]);
        }
        lemma_split_join(rest);
        let j = join_slash(ts);
        let a = ts[0];
        assert(no_char(a, '/'));
        assert(j[a.len() as int] == '/');
        lemma_first_char(j, '/');
        let i = first_occurrence_from(j, seq!['/'], 0)->0;
        assert(i == a.len()) by {
            if i < a.len() {
                assert(j[i] == a[i]);
            } else if i > a.len() {
                assert(j.subrange(0, i)[a.len() as int] == j[a.len() as int]);
            }
        }
        assert(j.subrange(0, i) =~= a);
        assert(j.subrange(i + 1, j.len() as int) =~= join_slash(rest));
        assert(seq![a] + rest =~= ts);
    }
}

proof fn lemma_split_parts(s: Seq<char>)
    ensures
        split_slash(s).len() >= 1,
        forall|k: int| 0 <= k < split_slash(s).len() ==> no_char(#[trigger] split_slash(s)[k], '/'),
        no_char(s, '?') ==> forall|k: int| 0 <= k < split_slash(s).len() ==> no_char(#[trigger] split_slash(s)[k], '?'),
        s.len() > 0 && s[0] == '/' ==> split_slash(s).len() >= 2 && split_slash(s)[0].len() == 0,
    decreases s.len(),
{
    lemma_first_char(s, '/');
    match first_occurrence_from(s, seq!['/'], 0) {
        Some(i) => {
            let head = s.subrange(0, i);
            let tail = s.subrange(i + 1, s.len() as int);
            lemma_split_parts(tail);
            let out = split_slash(s);
            assert(out == seq![head] + split_slash(tail));
            assert forall|k: int| 0 <= k < out.len() implies no_char(#[trigger] out[k], '/') by {
                if k > 0 {
                    assert(out[k] == split_slash(tail)[k - 1]);
                }
            }
            if no_char(s, '?') {
                assert(no_char(tail, '?')) by {
                    assert forall|m: int| 0 <= m < tail.len() implies tail[m] != '?' by {
                        assert(tail[m] == s[m + i + 1]);
                    }
                }
                assert forall|k: int| 0 <= k < out.len() implies no_char(#[trigger] out[k], '?') by {
                    if k > 0 {
                        assert(out[k] == split_slash(tail)[k - 1]);
                    } else {
                        assert forall|m: int| 0 <= m < head.len() implies head[m] != '?' by {
                            assert(head[m] == s[m]);
                        }
                    }
                }
            }
            if s.len() > 0 && s[0] == '/' {
                assert(i == 0) by {
                    if i > 0 {
                        assert(s.subrange(0, i)[0] == s[0]);
                    }
                }
            }
        },
        None => {
            assert(split_slash(s) == seq![s]);
        },
    }
}

proof fn lemma_not_number(p: Seq<char>)
    requires
        p.len() > 0,
        p[0] == '{',
    ensures
        !parses_u64(p),
{
    assert(without_plus(p) == p);
    assert(!is_digit(p[0]));
}

proof fn lemma_segment_stable(seg: Seq<char>)
    ensures
        segment_template(segment_template(seg)) == segment_template(seg),
{
    reveal_strlit("{id}");
    reveal_strlit("{uuid}");
    reveal_strlit("{hash}");
    let t = segment_template(seg);
    if seg.len() > 0 && t != seg {
        lemma_not_number(t);
    }
}

proof fn lemma_segment_chars(seg: Seq<char>, c: char)
    requires
        c == '/' || c == '?',
        no_char(seg, c),
    ensures
        no_char(segment_template(seg), c),
{
    reveal_strlit("{id}");
    reveal_strlit("{uuid}");
    reveal_strlit("{hash}");
}

/// A URL template is its own template: inferring the template of a
/// template changes nothing. This holds of a text starting with `/` and of
/// a URL whose parsed path starts with `/`, as every `http` or `https`
/// URL's does (`url_path` reports this).
pub proof fn lemma_template_stable(raw: Seq<char>)
    requires
        has_prefix(raw, "/"@) || (parsed_url_path(raw) matches Some(p) && has_prefix(p, "/"@)),
    ensures
        url_template(url_template(raw)) == url_template(raw),
{
    reveal_strlit("/");
    let p0 = if has_prefix(raw, "/"@) {
        before_char(raw, '?')
    } else {
        match parsed_url_path(raw) {
            Some(p) => p,
            None => before_char(raw, '?'),
        }
    };
    if has_prefix(raw, "/"@) {
        assert(raw.subrange(0, 1)[0] == raw[0]);
        assert(raw[0] == '/');
        lemma_before_char_slash(raw);
    } else {
        assert(p0.subrange(0, 1)[0] == p0[0]);
    }
    assert(p0.len() > 0 && p0[0] == '/');
    lemma_before_char_slash(p0);
    let path = before_char(p0, '?');
    lemma_split_parts(path);
    let segs = split_slash(path);
    let ts = segment_templates(segs);
    assert forall|k: int| 0 <= k < ts.len() implies no_char(#[trigger] ts[k], '/') && no_char(ts[k], '?') by {
        lemma_segment_chars(segs[k], '/');
        lemma_segment_chars(segs[k], '?');
    }
    assert(ts[0].len() == 0);
    let t = join_slash(ts);
    assert(t == url_template(raw));
    lemma_join_front(ts);
    assert(t[0] == '/');
    assert(t.subrange(0, 1) =~= "/"@);
    assert(has_prefix(t, "/"@));
    lemma_join_no_char(ts, '?');
    lemma_first_char(t, '?');
    assert(before_char(t, '?') == t);
    lemma_split_join(ts);
    assert forall|k: int| 0 <= k < ts.len() implies #[trigger] segment_template(ts[k]) == ts[k] by {
        lemma_segment_stable(segs[k]);
    }
    assert(segment_templates(ts) =~= ts);
}

// ---------------------------------------------------------------------------
// Captured traffic
// ---------------------------------------------------------------------------

/// A captured network request/response pair. `timestamp` is in
/// milliseconds since the Unix epoch.
#[derive(Debug, Clone)]
pub struct ApiRequest {
    pub url: String,
    pub method: String,
    pub request_headers: Vec<(String, String)>,
    pub request_body: Option<String>,
    pub response_status: u16,
    pub response_headers: Vec<(String, String)>,
    pub response_body: Option<String>,
    pub content_type: Option<String>,
    pub timestamp: i64,
    /// The response is JSON, GraphQL or XML: likely an API call.
    pub is_api: bool,
    /// The request targets a GraphQL endpoint.
    pub is_graphql: bool,
}

/// The API requests among `rs`, in order.
pub open spec fn api_only(rs: Seq<ApiRequest>) -> Seq<ApiRequest>
    decreases rs.len(),
{
    if rs.len() == 0 {
        Seq::empty()
    } else if rs.last().is_api {
        api_only(rs.drop_last()).push(rs.last())
    } else {
        api_only(rs.drop_last())
    }
}

/// The GraphQL requests among `rs`, in order.
pub open spec fn graphql_only(rs: Seq<ApiRequest>) -> Seq<ApiRequest>
    decreases rs.len(),
{
    if rs.len() == 0 {
        Seq::empty()
    } else if rs.last().is_graphql {
        graphql_only(rs.drop_last()).push(rs.last())
    } else {
        graphql_only(rs.drop_last())
    }
}

// ---------------------------------------------------------------------------
// Endpoint discovery
// ---------------------------------------------------------------------------

/// A request's grouping key: its method and URL template.
pub open spec fn request_key(r: ApiRequest) -> (Seq<char>, Seq<char>) {
    (r.method@, url_template(r.url@))
}

/// Position of the first group with key `k`.
pub open spec fn key_position(gs: Seq<((Seq<char>, Seq<char>), Seq<int>)>, k: (Seq<char>, Seq<char>)) -> Option<int>
    decreases gs.len(),
{
    if gs.len() == 0 {
        None
    } else {
        match key_position(gs.drop_last(), k) {
            Some(j) => Some(j),
            None => if gs.last().0 == k {
                Some(gs.len() - 1)
            } else {
                None
            },
        }
    }
}

/// The API requests among `rs` grouped by key, in order of each key's
/// first request: `(key, positions of its requests in order)`.
pub open spec fn groups_of(rs: Seq<ApiRequest>) -> Seq<((Seq<char>, Seq<char>), Seq<int>)>
    decreases rs.len(),
{
    if rs.len() == 0 {
        Seq::empty()
    } else {
        let g = groups_of(rs.drop_last());
        let r = rs.last();
        let i = rs.len() - 1;
        if !r.is_api {
            g
        } else {
            match key_position(g, request_key(r)) {
                Some(j) => g.update(j, (g[j].0, g[j].1.push(i))),
                None => g.push((request_key(r), seq![i])),
            }
        }
    }
}

/// The groups of `gs` with exactly `t` requests, in order.
pub open spec fn with_count(gs: Seq<((Seq<char>, Seq<char>), Seq<int>)>, t: int) -> Seq<
    ((Seq<char>, Seq<char>), Seq<int>),
>
    decreases gs.len(),
{
    if gs.len() == 0 {
        Seq::empty()
    } else if gs.last().1.len() == t {
        with_count(gs.drop_last(), t).push(gs.last())
    } else {
        with_count(gs.drop_last(), t)
    }
}

/// The groups with between `lo + 1` and `hi` requests, the larger counts
/// first and equal counts in order of first appearance.
pub open spec fn count_band(gs: Seq<((Seq<char>, Seq<char>), Seq<int>)>, hi: int, lo: int) -> Seq<
    ((Seq<char>, Seq<char>), Seq<int>),
>
    decreases hi - lo,
{
    if hi <= lo {
        Seq::empty()
    } else {
        with_count(gs, hi) + count_band(gs, hi - 1, lo)
    }
}

/// The authentication of a group: that of its first request that shows one.
pub open spec fn group_auth(rs: Seq<ApiRequest>, ms: Seq<int>) -> AuthType
    decreases ms.len(),
{
    if ms.len() == 0 {
        AuthType::NoAuth
    } else if auth_of(rs[ms[0]].request_headers@) != AuthType::NoAuth {
        auth_of(rs[ms[0]].request_headers@)
    } else {
        group_auth(rs, ms.drop_first())
    }
}

/// Requests to one endpoint: a method and URL template, the positions of
/// the captured requests that share them, the authentication they show,
/// and one concrete URL.
#[derive(Debug, Clone)]
pub struct EndpointGroup {
    pub method: String,
    pub url_template: String,
    /// Positions of the group's requests among the captured ones, in order.
    pub members: Vec<usize>,
    pub auth_type: AuthType,
    pub example_url: String,
}

/// The key and members of an endpoint group.
pub open spec fn group_view(e: EndpointGroup) -> ((Seq<char>, Seq<char>), Seq<int>) {
    ((e.method@, e.url_template@), e.members@.map_values(|m: usize| m as int))
}

/// The endpoints of the captured requests `rs`: their groups, the most
/// requested first and equal counts in order of first request.
pub open spec fn endpoints_of(rs: Seq<ApiRequest>) -> Seq<((Seq<char>, Seq<char>), Seq<int>)> {
    count_band(groups_of(rs), rs.len() as int, 0)
}

proof fn lemma_key_position(gs: Seq<((Seq<char>, Seq<char>), Seq<int>)>, k: (Seq<char>, Seq<char>))
    ensures
        key_position(gs, k) matches Some(j) ==> 0 <= j < gs.len() && gs[j].0 == k && forall|i: int|
            0 <= i < j ==> gs[i].0 != k,
        key_position(gs, k) is None ==> forall|i: int| 0 <= i < gs.len() ==> gs[i].0 != k,
    decreases gs.len(),
{
    if gs.len() > 0 {
        lemma_key_position(gs.drop_last(), k);
        assert(forall|i: int| 0 <= i < gs.len() - 1 ==> gs.drop_last()[i] == gs[i]);
    }
}

proof fn lemma_count_band_step(gs: Seq<((Seq<char>, Seq<char>), Seq<int>)>, hi: int, lo: int)
    requires
        lo <= hi,
    ensures
        count_band(gs, hi, lo - 1) == count_band(gs, hi, lo) + with_count(gs, lo),
    decreases hi - lo,
{
    if hi == lo {
        let b = with_count(gs, lo);
        let e = Seq::<((Seq<char>, Seq<char>), Seq<int>)>::empty();
        assert(count_band(gs, lo - 1, lo - 1) == e);
        assert(count_band(gs, lo, lo) == e);
        assert(count_band(gs, lo, lo - 1) == b + e);
        assert(b + e =~= e + b);
    } else if hi == lo + 1 {
        let w = with_count(gs, hi);
        let b = with_count(gs, lo);
        let e = Seq::<((Seq<char>, Seq<char>), Seq<int>)>::empty();
        assert(count_band(gs, lo - 1, lo - 1) == e);
        assert(count_band(gs, lo, lo) == e);
        assert(count_band(gs, lo, lo - 1) == b + e);
        assert(count_band(gs, hi, lo - 1) == w + count_band(gs, lo, lo - 1));
        assert(count_band(gs, hi, lo) == w + e);
        assert(w + (b + e) =~= (w + e) + b);
    } else {
        lemma_count_band_step(gs, hi - 1, lo);
        let w = with_count(gs, hi);
        let a = count_band(gs, hi - 1, lo);
        let b = with_count(gs, lo);
        assert(count_band(gs, hi, lo - 1) == w + count_band(gs, hi - 1, lo - 1));
        assert(count_band(gs, hi - 1, lo - 1) == a + b);
        assert(count_band(gs, hi, lo) == w + a);
        assert(w + (a + b) =~= (w + a) + b);
    }
}

proof fn lemma_with_count_counts(gs: Seq<((Seq<char>, Seq<char>), Seq<int>)>, t: int)
    ensures
        forall|i: int| 0 <= i < with_count(gs, t).len() ==> #[trigger] with_count(gs, t)[i].1.len() == t,
    decreases gs.len(),
{
    if gs.len() > 0 {
        lemma_with_count_counts(gs.drop_last(), t);
        let prev = with_count(gs.drop_last(), t);
        assert forall|i: int| 0 <= i < with_count(gs, t).len() implies #[trigger] with_count(
            gs,
            t,
        )[i].1.len() == t by {
            if gs.last().1.len() == t && i == prev.len() {
                assert(with_count(gs, t)[i] == gs.last());
            } else {
                assert(with_count(gs, t)[i] == prev[i]);
            }
        }
    }
}

proof fn lemma_count_band_counts(gs: Seq<((Seq<char>, Seq<char>), Seq<int>)>, hi: int, lo: int)
    ensures
        forall|i: int|
            0 <= i < count_band(gs, hi, lo).len() ==> lo < #[trigger] count_band(gs, hi, lo)[i].1.len()
                <= hi,
    decreases hi - lo,
{
    if hi > lo {
        lemma_with_count_counts(gs, hi);
        lemma_count_band_counts(gs, hi - 1, lo);
        let a = with_count(gs, hi);
        let b = count_band(gs, hi - 1, lo);
        assert forall|i: int| 0 <= i < count_band(gs, hi, lo).len() implies lo < #[trigger] count_band(
            gs,
            hi,
            lo,
        )[i].1.len() <= hi by {
            if i < a.len() {
                assert(count_band(gs, hi, lo)[i] == a[i]);
            } else {
                assert(count_band(gs, hi, lo)[i] == b[i - a.len()]);
            }
        }
    }
}

/// Endpoints come most-requested first: request counts never increase
/// along the list.
pub proof fn lemma_endpoints_sorted(gs: Seq<((Seq<char>, Seq<char>), Seq<int>)>, hi: int, lo: int)
    ensures
        forall|i: int, j: int|
            0 <= i < j < count_band(gs, hi, lo).len() ==> count_band(gs, hi, lo)[i].1.len()
                >= count_band(gs, hi, lo)[j].1.len(),
    decreases hi - lo,
{
    if hi > lo {
        lemma_with_count_counts(gs, hi);
        lemma_count_band_counts(gs, hi - 1, lo);
        lemma_endpoints_sorted(gs, hi - 1, lo);
        let a = with_count(gs, hi);
        let b = count_band(gs, hi - 1, lo);
        let c = count_band(gs, hi, lo);
        assert(c == a + b);
        assert forall|i: int, j: int| 0 <= i < j < c.len() implies c[i].1.len() >= c[j].1.len() by {
            if j < a.len() {
                assert(c[i] == a[i] && c[j] == a[j]);
                assert(a[i].1.len() == hi);
                assert(a[j].1.len() == hi);
            } else if i < a.len() {
                assert(c[i] == a[i] && c[j] == b[j - a.len()]);
                assert(a[i].1.len() == hi);
                assert(b[j - a.len()].1.len() <= hi - 1);
            } else {
                assert(c[i] == b[i - a.len()] && c[j] == b[j - a.len()]);
            }
        }
    }
}

/// The key and members of a group under construction.
pub open spec fn raw_group_view(g: (String, String, Vec<usize>)) -> ((Seq<char>, Seq<char>), Seq<int>) {
    ((g.0@, g.1@), g.2@.map_values(|m: usize| m as int))
}

fn copy_members(ms: &Vec<usize>) -> (r: Vec<usize>)
    ensures
        r@ == ms@,
{
    let mut r: Vec<usize> = Vec::new();
    let mut i: usize = 0;
    while i < ms.len()
        invariant
            i <= ms.len(),
            r@ == ms@.take(i as int),
        decreases ms.len() - i,
    {
        r.push(ms[i]);
        i += 1;
        assert(ms@.take(i as int) =~= ms@.take(i - 1).push(ms@[i - 1]));
    }
    assert(ms@.take(i as int) =~= ms@);
    r
}

fn members_auth(rs: &Vec<ApiRequest>, ms: &Vec<usize>) -> (a: AuthType)
    requires
        forall|k: int| 0 <= k < ms@.len() ==> (#[trigger] ms@[k]) < rs@.len(),
    ensures
        a == group_auth(rs@, ms@.map_values(|m: usize| m as int)),
{
    let ghost mv = ms@.map_values(|m: usize| m as int);
    let mut k: usize = 0;
    assert(mv.skip(0) =~= mv);
    while k < ms.len()
        invariant
            mv == ms@.map_values(|m: usize| m as int),
            forall|q: int| 0 <= q < ms@.len() ==> (#[trigger] ms@[q]) < rs@.len(),
            k <= ms.len(),
            group_auth(rs@, mv) == group_auth(rs@, mv.skip(k as int)),
        decreases ms.len() - k,
    {
        let m = ms[k];
        assert(mv.skip(k as int)[0] == m as int);
        assert(mv.skip(k as int).drop_first() =~= mv.skip(k + 1));
        let a = detect_auth_type(rs[m].request_headers.as_slice());
        if a != AuthType::NoAuth {
            return a;
        }
        k += 1;
    }
    assert(mv.skip(k as int) =~= Seq::<int>::empty());
    AuthType::NoAuth
}

/// The request (`request`) or response body of the captured request at
/// position `m`; none outside the capture.
pub open spec fn body_at(rs: Seq<ApiRequest>, m: int, request: bool) -> Option<String> {
    if 0 <= m < rs.len() {
        if request {
            rs[m].request_body
        } else {
            rs[m].response_body
        }
    } else {
        None
    }
}

/// The bodies of the requests at positions `ms`, in order.
pub open spec fn member_bodies(rs: Seq<ApiRequest>, ms: Seq<int>, request: bool) -> Seq<Option<String>> {
    ms.map_values(|m: int| body_at(rs, m, request))
}

/// The shape of the first body of `bs` that parses as JSON.
pub open spec fn first_parsed(bs: Seq<Option<String>>) -> Option<JsonShape>
    decreases bs.len(),
{
    if bs.len() == 0 {
        None
    } else {
        match bs[0] {
            Some(b) => match parsed_json_shape(b@) {
                Some(v) => Some(v),
                None => first_parsed(bs.drop_first()),
            },
            None => first_parsed(bs.drop_first()),
        }
    }
}

/// `s` is the schema of `shape`, and absent exactly when `shape` is.
pub open spec fn schema_for(s: Option<Schema>, shape: Option<JsonShape>) -> bool {
    match (s, shape) {
        (None, None) => true,
        (Some(x), Some(v)) => schema_of(x, v),
        _ => false,
    }
}

/// A discovered API endpoint, with the schemas of its first JSON request
/// and response bodies.
#[derive(Debug)]
pub struct ApiEndpoint {
    /// Templatized URL path (e.g. `/api/users/{id}`).
    pub url_template: String,
    /// HTTP method.
    pub method: String,
    /// Number of times this endpoint was observed.
    pub seen_count: u32,
    /// Detected authentication mechanism.
    pub auth_type: AuthType,
    /// Schema of the first request body that parses as JSON.
    pub request_schema: Option<Schema>,
    /// Schema of the first response body that parses as JSON.
    pub response_schema: Option<Schema>,
    /// One concrete URL of this endpoint.
    pub example_url: String,
}

/// `eps` are the endpoints of the captured requests `rs`: one per group of
/// `endpoints_of`, in its order, with the group's method, template, request
/// count, authentication and example URL, and the schemas of its first
/// request and response bodies that parse as JSON.
pub open spec fn discovered(rs: Seq<ApiRequest>, eps: Seq<ApiEndpoint>) -> bool {
    &&& eps.len() == endpoints_of(rs).len()
    &&& forall|i: int| #![trigger eps[i]]
        0 <= i < eps.len() ==> {
            let g = endpoints_of(rs)[i];
            &&& eps[i].method@ == g.0.0
            &&& eps[i].url_template@ == g.0.1
            &&& eps[i].seen_count == g.1.len() as u32
            &&& g.1.len() > 0
            &&& eps[i].auth_type == group_auth(rs, g.1)
            &&& eps[i].example_url@ == rs[g.1[0]].url@
            &&& schema_for(eps[i].request_schema, first_parsed(member_bodies(rs, g.1, true)))
            &&& schema_for(eps[i].response_schema, first_parsed(member_bodies(rs, g.1, false)))
        }
}

/// The JSON text of an optional schema.
pub open spec fn schema_text_of(s: Option<Schema>) -> Option<Seq<char>> {
    match s {
        Some(x) => Some(schema_text(x)),
        None => None,
    }
}

/// The text of an optional string.
pub open spec fn opt_text(s: Option<String>) -> Option<Seq<char>> {
    match s {
        Some(x) => Some(x@),
        None => None,
    }
}

/// `s` shows endpoint `e`: its fields, with the schemas as JSON text.
pub open spec fn summarises(s: EndpointSummary, e: ApiEndpoint) -> bool {
    &&& s.method@ == e.method@
    &&& s.url_template@ == e.url_template@
    &&& s.seen_count == e.seen_count
    &&& s.auth_type == e.auth_type
    &&& opt_text(s.request_schema) == schema_text_of(e.request_schema)
    &&& opt_text(s.response_schema) == schema_text_of(e.response_schema)
    &&& s.example_url@ == e.example_url@
}

/// Collects network requests for API discovery.
pub struct NetworkCapture {
    requests: Vec<ApiRequest>,
}

impl NetworkCapture {
    /// Every captured request, in capture order.
    pub closed spec fn captured(&self) -> Seq<ApiRequest> {
        self.requests@
    }

    /// An empty capture store.
    pub fn new() -> (r: Self)
        ensures
            r.captured() == Seq::<ApiRequest>::empty(),
    {
        NetworkCapture { requests: Vec::new() }
    }

    /// Every captured request, in capture order.
    pub fn requests(&self) -> (r: &Vec<ApiRequest>)
        ensures
            r@ == self.captured(),
    {
        &self.requests
    }

    /// Record a captured request/response.
    pub fn record(&mut self, request: ApiRequest)
        ensures
            final(self).captured() == old(self).captured().push(request),
    {
        self.requests.push(request);
    }

    /// The captured entries that are API calls.
    pub fn api_requests(&self) -> (r: Vec<&ApiRequest>)
        ensures
            r@.map_values(|q: &ApiRequest| *q) == api_only(self.captured()),
    {
        let mut r: Vec<&ApiRequest> = Vec::new();
        let mut i: usize = 0;
        while i < self.requests.len()
            invariant
                i <= self.requests.len(),
                r@.map_values(|q: &ApiRequest| *q) == api_only(self.requests@.take(i as int)),
            decreases self.requests.len() - i,
        {
            assert(self.requests@.take(i + 1).drop_last() =~= self.requests@.take(i as int));
            let ghost before = r@.map_values(|q: &ApiRequest| *q);
            if self.requests[i].is_api {
                r.push(&self.requests[i]);
                assert(r@.map_values(|q: &ApiRequest| *q) =~= before.push(self.requests@[i as int]));
            }
            i += 1;
        }
        assert(self.requests@.take(i as int) =~= self.requests@);
        r
    }

    /// The API endpoints seen so far: the API requests grouped by method
    /// and URL template, most-requested first and equal counts in order of
    /// first request, each with the authentication of its first request
    /// that shows one and the URL of its first request.
    pub fn endpoint_groups(&self) -> (r: Vec<EndpointGroup>)
        ensures
            r@.map_values(|e: EndpointGroup| group_view(e)) == endpoints_of(self.captured()),
            forall|i: int| #![trigger r@[i]]
                0 <= i < r@.len() ==> {
                    &&& r@[i].members@.len() > 0
                    &&& r@[i].members@[0] < self.captured().len()
                    &&& r@[i].auth_type == group_auth(self.captured(), group_view(r@[i]).1)
                    &&& r@[i].example_url@ == self.captured()[r@[i].members@[0] as int].url@
                },
    {
        let ghost rs = self.requests@;
        let n = self.requests.len();
        // Group the API requests by key, in order of first request.
        let mut groups: Vec<(String, String, Vec<usize>)> = Vec::new();
        let mut i: usize = 0;
        assert(rs.take(0) =~= Seq::<ApiRequest>::empty());
        assert(groups@.map_values(|g: (String, String, Vec<usize>)| raw_group_view(g)) =~= Seq::<
            ((Seq<char>, Seq<char>), Seq<int>),
        >::empty());
        while i < n
            invariant
                rs == self.requests@,
                n == rs.len(),
                i <= n,
                groups@.map_values(|g: (String, String, Vec<usize>)| raw_group_view(g)) == groups_of(
                    rs.take(i as int),
                ),
                forall|j: int| #![trigger groups@[j]]
                    0 <= j < groups@.len() ==> groups@[j].2@.len() > 0 && forall|k: int|
                        0 <= k < groups@[j].2@.len() ==> (#[trigger] groups@[j].2@[k]) < i,
            decreases n - i,
        {
            let ghost gv = groups@.map_values(|g: (String, String, Vec<usize>)| raw_group_view(g));
            assert(rs.take(i + 1).drop_last() =~= rs.take(i as int));
            assert(rs.take(i + 1).last() == rs[i as int]);
            let r = &self.requests[i];
            if r.is_api {
                let t = infer_url_template(r.url.as_str());
                let ghost key = request_key(*r);
                let mut j: usize = 0;
                while j < groups.len() && !(str_eq(groups[j].0.as_str(), r.method.as_str()) && str_eq(
                    groups[j].1.as_str(),
                    t.as_str(),
                ))
                    invariant
                        gv == groups@.map_values(|g: (String, String, Vec<usize>)| raw_group_view(g)),
                        key == (r.method@, t@),
                        j <= groups.len(),
                        forall|q: int| 0 <= q < j ==> gv[q].0 != key,
                    decreases groups.len() - j,
                {
                    assert(gv[j as int] == raw_group_view(groups@[j as int]));
                    j += 1;
                }
                proof { lemma_key_position(gv, key); }
                if j < groups.len() {
                    assert(gv[j as int] == raw_group_view(groups@[j as int]));
                    assert(key_position(gv, key) == Some(j as int));
                    let ghost old_members = groups@[j as int].2@;
                    groups[j].2.push(i);
                    proof {
                        assert(groups@[j as int].2@ == old_members.push(i));
                        assert(groups@[j as int].2@.map_values(|m: usize| m as int) =~= old_members.map_values(
                            |m: usize| m as int,
                        ).push(i as int));
                        assert(groups@.map_values(|g: (String, String, Vec<usize>)| raw_group_view(g))
                            =~= gv.update(j as int, (gv[j as int].0, gv[j as int].1.push(i as int))));
                    }
                } else {
                    assert(key_position(gv, key) is None);
                    let mut ms: Vec<usize> = Vec::new();
                    ms.push(i);
                    groups.push((r.method.clone(), t, ms));
                    proof {
                        assert(groups@.last().2@.map_values(|m: usize| m as int) =~= seq![i as int]);
                        assert(groups@.map_values(|g: (String, String, Vec<usize>)| raw_group_view(g))
                            =~= gv.push((key, seq![i as int])));
                    }
                }
            }
            i += 1;
        }
        assert(rs.take(n as int) =~= rs);
        let ghost gv = groups@.map_values(|g: (String, String, Vec<usize>)| raw_group_view(g));
        // Order the groups: larger counts first, equal counts in order.
        let gn = groups.len();
        let mut order: Vec<usize> = Vec::new();
        let mut t: usize = n;
        assert(order@.map_values(|j: usize| gv[j as int]) =~= count_band(gv, n as int, n as int));
        while t > 0
            invariant
                gv == groups@.map_values(|g: (String, String, Vec<usize>)| raw_group_view(g)),
                gn == groups.len(),
                t <= n,
                order@.map_values(|j: usize| gv[j as int]) == count_band(gv, n as int, t as int),
                forall|k: int| 0 <= k < order@.len() ==> (#[trigger] order@[k]) < gn,
            decreases t,
        {
            let ghost before = order@.map_values(|j: usize| gv[j as int]);
            let mut j: usize = 0;
            assert(gv.take(0) =~= Seq::<((Seq<char>, Seq<char>), Seq<int>)>::empty());
            assert(before + with_count(gv.take(0), t as int) =~= before);
            while j < gn
                invariant
                    gv == groups@.map_values(|g: (String, String, Vec<usize>)| raw_group_view(g)),
                    gn == groups.len(),
                    j <= gn,
                    order@.map_values(|q: usize| gv[q as int]) == before + with_count(gv.take(j as int), t as int),
                    forall|k: int| 0 <= k < order@.len() ==> (#[trigger] order@[k]) < gn,
                decreases gn - j,
            {
                assert(gv.take(j + 1).drop_last() =~= gv.take(j as int));
                assert(gv.take(j + 1).last() == gv[j as int]);
                assert(gv[j as int] == raw_group_view(groups@[j as int]));
                let ghost prev = order@.map_values(|q: usize| gv[q as int]);
                if groups[j].2.len() == t {
                    order.push(j);
                    assert(order@.map_values(|q: usize| gv[q as int]) =~= prev.push(gv[j as int]));
                }
                j += 1;
            }
            assert(gv.take(gn as int) =~= gv);
            proof { lemma_count_band_step(gv, n as int, t as int); }
            t -= 1;
        }
        // Build the endpoints in that order.
        let ghost ov = order@.map_values(|j: usize| gv[j as int]);
        let mut out: Vec<EndpointGroup> = Vec::new();
        let mut k: usize = 0;
        while k < order.len()
            invariant
                rs == self.requests@,
                gv == groups@.map_values(|g: (String, String, Vec<usize>)| raw_group_view(g)),
                ov == order@.map_values(|j: usize| gv[j as int]),
                forall|q: int| 0 <= q < order@.len() ==> (#[trigger] order@[q]) < groups@.len(),
                forall|j: int| #![trigger groups@[j]]
                    0 <= j < groups@.len() ==> groups@[j].2@.len() > 0 && forall|m: int|
                        0 <= m < groups@[j].2@.len() ==> (#[trigger] groups@[j].2@[m]) < rs.len(),
                k <= order.len(),
                out@.map_values(|e: EndpointGroup| group_view(e)) == ov.take(k as int),
                forall|q: int| #![trigger out@[q]]
                    0 <= q < out@.len() ==> {
                        &&& out@[q].members@.len() > 0
                        &&& out@[q].members@[0] < rs.len()
                        &&& out@[q].auth_type == group_auth(rs, group_view(out@[q]).1)
                        &&& out@[q].example_url@ == rs[out@[q].members@[0] as int].url@
                    },
            decreases order.len() - k,
        {
            let j = order[k];
            let g = &groups[j];
            assert(gv[j as int] == raw_group_view(groups@[j as int]));
            let members = copy_members(&g.2);
            let auth_type = members_auth(&self.requests, &members);
            let first = members[0];
            let example_url = self.requests[first].url.clone();
            let e = EndpointGroup {
                method: g.0.clone(),
                url_template: g.1.clone(),
                members,
                auth_type,
                example_url,
            };
            let ghost prev = out@.map_values(|e: EndpointGroup| group_view(e));
            out.push(e);
            proof {
                assert(group_view(e) == gv[j as int]);
                assert(ov.take(k + 1) =~= ov.take(k as int).push(ov[k as int]));
                assert(out@.map_values(|e: EndpointGroup| group_view(e)) =~= prev.push(group_view(e)));
            }
            k += 1;
        }
        assert(ov.take(k as int) =~= ov);
        out
    }

    /// The schema of the first body among the requests at `members` that
    /// parses as JSON: request bodies when `request`, else response bodies.
    fn first_body_schema(&self, members: &Vec<usize>, request: bool) -> (r: Option<Schema>)
        ensures
            schema_for(r, first_parsed(member_bodies(self.captured(), members@.map_values(|m: usize| m as int), request))),
    {
        let ghost rs = self.captured();
        let ghost bs = member_bodies(rs, members@.map_values(|m: usize| m as int), request);
        let mut i: usize = 0;
        assert(bs.subrange(0, bs.len() as int) =~= bs);
        while i < members.len()
            invariant
                i <= members@.len(),
                rs == self.captured(),
                bs == member_bodies(rs, members@.map_values(|m: usize| m as int), request),
                bs.len() == members@.len(),
                first_parsed(bs) == first_parsed(bs.subrange(i as int, bs.len() as int)),
            decreases members.len() - i,
        {
            let ghost rest = bs.subrange(i as int, bs.len() as int);
            assert(rest[0] == bs[i as int]);
            assert(rest.drop_first() =~= bs.subrange(i as int + 1, bs.len() as int));
            let m = members[i];
            assert(bs[i as int] == body_at(rs, m as int, request));
            if m < self.requests.len() {
                let b = if request { &self.requests[m].request_body } else { &self.requests[m].response_body };
                match b {
                    Some(text) => {
                        match json_body_shape(text.as_str()) {
                            Some(shape) => {
                                let schema = infer_json_schema(&shape);
                                return Some(schema);
                            },
                            None => {},
                        }
                    },
                    None => {},
                }
            }
            i += 1;
        }
        None
    }

    /// The endpoints of the captured API traffic: one per group of
    /// `endpoint_groups`, in its order, with the group's method, template,
    /// request count, authentication and example URL, and the schemas of
    /// its first request and response bodies that parse as JSON.
    pub fn discover_endpoints(&self) -> (r: Vec<ApiEndpoint>)
        ensures
            discovered(self.captured(), r@),
    {
        let groups = self.endpoint_groups();
        let ghost gv = groups@.map_values(|e: EndpointGroup| group_view(e));
        let mut out: Vec<ApiEndpoint> = Vec::new();
        let mut i: usize = 0;
        while i < groups.len()
            invariant
                i <= groups@.len(),
                gv == groups@.map_values(|e: EndpointGroup| group_view(e)),
                gv == endpoints_of(self.captured()),
                forall|j: int| #![trigger groups@[j]]
                    0 <= j < groups@.len() ==> {
                        &&& groups@[j].members@.len() > 0
                        &&& groups@[j].members@[0] < self.captured().len()
                        &&& groups@[j].auth_type == group_auth(self.captured(), group_view(groups@[j]).1)
                        &&& groups@[j].example_url@ == self.captured()[groups@[j].members@[0] as int].url@
                    },
                out@.len() == i,
                forall|j: int| #![trigger out@[j]]
                    0 <= j < i ==> {
                        let g = gv[j];
                        &&& out@[j].method@ == g.0.0
                        &&& out@[j].url_template@ == g.0.1
                        &&& out@[j].seen_count == g.1.len() as u32
                        &&& g.1.len() > 0
                        &&& out@[j].auth_type == group_auth(self.captured(), g.1)
                        &&& out@[j].example_url@ == self.captured()[g.1[0]].url@
                        &&& schema_for(out@[j].request_schema, first_parsed(member_bodies(self.captured(), g.1, true)))
                        &&& schema_for(out@[j].response_schema, first_parsed(member_bodies(self.captured(), g.1, false)))
                    },
            decreases groups.len() - i,
        {
            let g = &groups[i];
            assert(gv[i as int] == group_view(groups@[i as int]));
            let request_schema = self.first_body_schema(&g.members, true);
            let response_schema = self.first_body_schema(&g.members, false);
            let ep = ApiEndpoint {
                url_template: g.url_template.clone(),
                method: g.method.clone(),
                seen_count: g.members.len() as u32,
                auth_type: g.auth_type,
                request_schema,
                response_schema,
                example_url: g.example_url.clone(),
            };
            out.push(ep);
            i += 1;
        }
        assert(discovered(self.captured(), out@));
        out
    }

    /// A human-readable summary of the captured traffic: the request counts,
    /// then each discovered endpoint with its schemas as JSON text.
    pub fn summary(&self) -> (r: String)
        ensures
            exists|eps: Seq<ApiEndpoint>, ss: Seq<EndpointSummary>| {
                &&& discovered(self.captured(), eps)
                &&& ss.len() == eps.len()
                &&& forall|i: int| 0 <= i < ss.len() ==> summarises(#[trigger] ss[i], eps[i])
                &&& r@ == crate::text::join_with(
                    summary_lines(
                        self.captured().len(),
                        api_only(self.captured()).len(),
                        graphql_only(self.captured()).len(),
                        ss,
                    ),
                    "\n"@,
                )
            },
    {
        let total = self.requests.len();
        let api = self.api_requests();
        let graphql = self.detect_graphql();
        let eps = self.discover_endpoints();
        let mut ss: Vec<EndpointSummary> = Vec::new();
        let mut i: usize = 0;
        while i < eps.len()
            invariant
                i <= eps@.len(),
                ss@.len() == i,
                forall|j: int| 0 <= j < i ==> summarises(#[trigger] ss@[j], eps@[j]),
            decreases eps.len() - i,
        {
            let e = &eps[i];
            let request_schema = match &e.request_schema {
                Some(x) => Some(schema_json(x)),
                None => None,
            };
            let response_schema = match &e.response_schema {
                Some(x) => Some(schema_json(x)),
                None => None,
            };
            ss.push(EndpointSummary {
                method: e.method.clone(),
                url_template: e.url_template.clone(),
                seen_count: e.seen_count,
                auth_type: e.auth_type,
                request_schema,
                response_schema,
                example_url: e.example_url.clone(),
            });
            i += 1;
        }
        proof {
            assert(api@.len() == api_only(self.captured()).len()) by {
                assert(api@.map_values(|q: &ApiRequest| *q).len() == api@.len());
            }
            assert(graphql@.len() == graphql_only(self.captured()).len()) by {
                assert(graphql@.map_values(|q: &ApiRequest| *q).len() == graphql@.len());
            }
        }
        summary_text(total, api.len(), graphql.len(), &ss)
    }

    /// The captured requests that target GraphQL endpoints.
    pub fn detect_graphql(&self) -> (r: Vec<&ApiRequest>)
        ensures
            r@.map_values(|q: &ApiRequest| *q) == graphql_only(self.captured()),
    {
        let mut r: Vec<&ApiRequest> = Vec::new();
        let mut i: usize = 0;
        while i < self.requests.len()
            invariant
                i <= self.requests.len(),
                r@.map_values(|q: &ApiRequest| *q) == graphql_only(self.requests@.take(i as int)),
            decreases self.requests.len() - i,
        {
            assert(self.requests@.take(i + 1).drop_last() =~= self.requests@.take(i as int));
            let ghost before = r@.map_values(|q: &ApiRequest| *q);
            if self.requests[i].is_graphql {
                r.push(&self.requests[i]);
                assert(r@.map_values(|q: &ApiRequest| *q) =~= before.push(self.requests@[i as int]));
            }
            i += 1;
        }
        assert(self.requests@.take(i as int) =~= self.requests@);
        r
    }
}

// ---------------------------------------------------------------------------
// Summary
// ---------------------------------------------------------------------------

/// What the summary shows of one endpoint; the schemas as JSON text.
pub struct EndpointSummary {
    pub method: String,
    pub url_template: String,
    pub seen_count: u32,
    pub auth_type: AuthType,
    pub request_schema: Option<String>,
    pub response_schema: Option<String>,
    pub example_url: String,
}

/// How an authentication type is named in the summary.
pub open spec fn auth_label(a: AuthType) -> Seq<char> {
    match a {
        AuthType::NoAuth => "None"@,
        AuthType::Bearer => "Bearer"@,
        AuthType::Cookie => "Cookie"@,
        AuthType::ApiKey => "ApiKey"@,
        AuthType::Basic => "Basic"@,
    }
}

/// The summary lines of one endpoint: method, template, count and
/// authentication; the schemas it has; an example URL.
pub open spec fn endpoint_lines(e: EndpointSummary) -> Seq<Seq<char>> {
    let head = seq![
        "  "@ + e.method@ + " "@ + e.url_template@ + " (seen "@ + crate::text::decimal(e.seen_count as nat)
            + "x, auth: "@ + auth_label(e.auth_type) + ")"@,
    ];
    let req = match e.request_schema {
        Some(s) => seq!["    request schema:  "@ + s@],
        None => Seq::empty(),
    };
    let resp = match e.response_schema {
        Some(s) => seq!["    response schema: "@ + s@],
        None => Seq::empty(),
    };
    head + req + resp + seq!["    example: "@ + e.example_url@]
}

/// The lines of all endpoints, in order.
pub open spec fn all_endpoint_lines(es: Seq<EndpointSummary>) -> Seq<Seq<char>>
    decreases es.len(),
{
    if es.len() == 0 {
        Seq::empty()
    } else {
        all_endpoint_lines(es.drop_last()) + endpoint_lines(es.last())
    }
}

/// The summary's lines: a title, the request counts, the number of
/// endpoints, a blank line, then each endpoint.
pub open spec fn summary_lines(total: nat, api: nat, graphql: nat, es: Seq<EndpointSummary>) -> Seq<Seq<char>> {
    seq![
        "=== Network Intelligence Summary ==="@,
        "Total requests: "@ + crate::text::decimal(total) + " | API calls: "@ + crate::text::decimal(api)
            + " | GraphQL: "@ + crate::text::decimal(graphql),
        "Discovered "@ + crate::text::decimal(es.len()) + " endpoint(s):"@,
        Seq::empty(),
    ] + all_endpoint_lines(es)
}

/// Appends the summary lines of `e` to `lines`.
fn push_endpoint_lines(lines: &mut Vec<String>, e: &EndpointSummary)
    ensures
        crate::text::views(final(lines)@) == crate::text::views(old(lines)@) + endpoint_lines(*e),
{
    let ghost before = crate::text::views(lines@);
    let mut head = owned("  ");
    crate::text::push_str(&mut head, e.method.as_str());
    crate::text::push_str(&mut head, " ");
    crate::text::push_str(&mut head, e.url_template.as_str());
    crate::text::push_str(&mut head, " (seen ");
    crate::text::push_decimal(&mut head, e.seen_count as u64);
    crate::text::push_str(&mut head, "x, auth: ");
    match e.auth_type {
        AuthType::NoAuth => crate::text::push_str(&mut head, "None"),
        AuthType::Bearer => crate::text::push_str(&mut head, "Bearer"),
        AuthType::Cookie => crate::text::push_str(&mut head, "Cookie"),
        AuthType::ApiKey => crate::text::push_str(&mut head, "ApiKey"),
        AuthType::Basic => crate::text::push_str(&mut head, "Basic"),
    }
    crate::text::push_str(&mut head, ")");
    lines.push(head);
    let ghost after_head = crate::text::views(lines@);
    assert(after_head == before.push(lines@.last()@));
    match &e.request_schema {
        Some(s) => {
            let mut l = owned("    request schema:  ");
            crate::text::push_str(&mut l, s.as_str());
            lines.push(l);
        },
        None => {},
    }
    let ghost after_req = crate::text::views(lines@);
    match &e.response_schema {
        Some(s) => {
            let mut l = owned("    response schema: ");
            crate::text::push_str(&mut l, s.as_str());
            lines.push(l);
        },
        None => {},
    }
    let ghost after_resp = crate::text::views(lines@);
    let mut l = owned("    example: ");
    crate::text::push_str(&mut l, e.example_url.as_str());
    lines.push(l);
    assert(crate::text::views(lines@) =~= before + endpoint_lines(*e));
}

/// A human-readable summary of the captured traffic (`total` requests of
/// which `api` are API calls and `graphql` GraphQL ones) and its endpoints.
pub fn summary_text(total: usize, api: usize, graphql: usize, endpoints: &Vec<EndpointSummary>) -> (r: String)
    ensures
        r@ == crate::text::join_with(
            summary_lines(total as nat, api as nat, graphql as nat, endpoints@),
            "\n"@,
        ),
{
    let mut lines: Vec<String> = Vec::new();
    lines.push(owned("=== Network Intelligence Summary ==="));
    let mut counts = owned("Total requests: ");
    crate::text::push_decimal(&mut counts, total as u64);
    crate::text::push_str(&mut counts, " | API calls: ");
    crate::text::push_decimal(&mut counts, api as u64);
    crate::text::push_str(&mut counts, " | GraphQL: ");
    crate::text::push_decimal(&mut counts, graphql as u64);
    lines.push(counts);
    let mut found = owned("Discovered ");
    crate::text::push_decimal(&mut found, endpoints.len() as u64);
    crate::text::push_str(&mut found, " endpoint(s):");
    lines.push(found);
    lines.push(String::new());
    let ghost head = crate::text::views(lines@);
    let mut i: usize = 0;
    while i < endpoints.len()
        invariant
            i <= endpoints.len(),
            crate::text::views(lines@) == head + all_endpoint_lines(endpoints@.take(i as int)),
        decreases endpoints.len() - i,
    {
        proof {
            assert(endpoints@.take(i as int + 1).drop_last() == endpoints@.take(i as int));
            assert(endpoints@.take(i as int + 1).last() == endpoints@[i as int]);
        }
        push_endpoint_lines(&mut lines, &endpoints[i]);
        i += 1;
    }
    assert(endpoints@.take(endpoints.len() as int) == endpoints@);
    assert(crate::text::views(lines@) =~= summary_lines(total as nat, api as nat, graphql as nat, endpoints@));
    crate::text::join_strings(&lines, "\n")
}

} // verus!
