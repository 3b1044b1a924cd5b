//! Applicant-tracking-system helpers: where a job application is
//! submitted, and which Greenhouse board slugs a company domain suggests.

use vstd::prelude::*;
use crate::text::{
    lowercase, has_prefix, has_suffix, contains_seq, replace_all, split_char, to_lower,
    split_char_exec, chars_of, string_of, str_eq, owned, slice_chars, contains_chars,
    replace_chars, lemma_push_contains, strip_char, strip_end_char, starts_with, ends_with,
    str_contains, push_str, push_chars, strip_char_exec, strip_end_char_exec,
};
use crate::network::{parsed_url_path, url_path};
use crate::rate_limit::{parsed_url_host, url_host};
use crate::native::{joined_url, url_join};

verus! {

// ---------------------------------------------------------------------------
// Greenhouse board slugs
// ---------------------------------------------------------------------------

/// A domain label that never names the company (`www`, `careers`, TLDs...).
pub open spec fn is_skip_word(p: Seq<char>) -> bool {
    ||| p == "www"@
    ||| p == "careers"@
    ||| p == "jobs"@
    ||| p == "apply"@
    ||| p == "boards"@
    ||| p == "hire"@
    ||| p == "com"@
    ||| p == "io"@
    ||| p == "co"@
    ||| p == "org"@
    ||| p == "net"@
    ||| p == "co.uk"@
}

/// The first label that is not a skip word.
pub open spec fn first_meaningful(parts: Seq<Seq<char>>) -> Option<Seq<char>>
    decreases parts.len(),
{
    if parts.len() == 0 {
        None
    } else if !is_skip_word(parts[0]) {
        Some(parts[0])
    } else {
        first_meaningful(parts.drop_first())
    }
}

/// The label that names the company in a lower-case domain: the first
/// meaningful label, else the second-level label, else none.
pub open spec fn slug_base(d: Seq<char>) -> Option<Seq<char>> {
    let parts = split_char(d, '.');
    match first_meaningful(parts) {
        Some(b) => Some(b),
        None => if parts.len() >= 2 {
            Some(parts[parts.len() - 2])
        } else {
            None
        },
    }
}

/// `base` without the company suffix `x`, when it ends with it, is
/// longer, and what remains does not end in a hyphen (`example-corp`
/// gives no `example-`).
pub open spec fn opt_strip(base: Seq<char>, x: Seq<char>) -> Seq<Seq<char>> {
    let stripped = base.subrange(0, base.len() - x.len());
    if base.len() > x.len() && has_suffix(base, x) && stripped.last() != '-' {
        seq![stripped]
    } else {
        Seq::empty()
    }
}

/// Slug guesses in order, before duplicates are removed: `base` without
/// each company suffix (`hq`, `inc`, `corp`, `io`, `app`, `labs`, `tech`,
/// `dev`, `eng`), `base` itself, and `base` without hyphens.
pub open spec fn raw_slugs(base: Seq<char>) -> Seq<Seq<char>> {
    let stripped = opt_strip(base, "hq"@) + opt_strip(base, "inc"@) + opt_strip(base, "corp"@)
        + opt_strip(base, "io"@) + opt_strip(base, "app"@) + opt_strip(base, "labs"@) + opt_strip(
        base,
        "tech"@,
    ) + opt_strip(base, "dev"@) + opt_strip(base, "eng"@);
    let with_base = stripped.push(base);
    if contains_seq(base, seq!['-']) {
        with_base.push(replace_all(base, seq!['-'], Seq::empty()))
    } else {
        with_base
    }
}

/// `s` without repeated elements, keeping first occurrences in order.
pub open spec fn dedup(s: Seq<Seq<char>>) -> Seq<Seq<char>>
    decreases s.len(),
{
    if s.len() == 0 {
        Seq::empty()
    } else {
        let d = dedup(s.drop_last());
        if d.contains(s.last()) {
            d
        } else {
            d.push(s.last())
        }
    }
}

/// Candidate Greenhouse board slugs for a career-site domain.
pub open spec fn slug_candidates(domain: Seq<char>) -> Seq<Seq<char>> {
    match slug_base(lowercase(domain)) {
        Some(b) => dedup(raw_slugs(b)),
        None => Seq::empty(),
    }
}

/// The views of a list of strings.
pub open spec fn views(v: Seq<String>) -> Seq<Seq<char>> {
    v.map_values(|x: String| x@)
}

fn is_skip_word_exec(p: &str) -> (b: bool)
    ensures
        b == is_skip_word(p@),
{
    str_eq(p, "www") || str_eq(p, "careers") || str_eq(p, "jobs") || str_eq(p, "apply") || str_eq(
        p,
        "boards",
    ) || str_eq(p, "hire") || str_eq(p, "com") || str_eq(p, "io") || str_eq(p, "co") || str_eq(
        p,
        "org",
    ) || str_eq(p, "net") || str_eq(p, "co.uk")
}

fn push_strip(out: &mut Vec<String>, base: &Vec<char>, x: &str)
    ensures
        views(final(out)@) == views(old(out)@) + opt_strip(base@, x@),
{
    let xv = chars_of(x);
    let n = base.len();
    let ghost before = views(out@);
    if n > xv.len() {
        let tail = slice_chars(base, n - xv.len(), n);
        let head = slice_chars(base, 0, n - xv.len());
        if str_eq(string_of(&tail).as_str(), x) && head[head.len() - 1] != '-' {
            out.push(string_of(&head));
            assert(views(out@) =~= before + opt_strip(base@, x@));
            return;
        }
    }
    assert(views(out@) =~= before + opt_strip(base@, x@));
}

fn contains_string(v: &Vec<String>, s: &str) -> (b: bool)
    ensures
        b == views(v@).contains(s@),
{
    let mut i: usize = 0;
    while i < v.len()
        invariant
            i <= v.len(),
            forall|j: int| 0 <= j < i ==> views(v@)[j] != s@,
        decreases v.len() - i,
    {
        if str_eq(v[i].as_str(), s) {
            assert(views(v@)[i as int] == s@);
            return true;
        }
        i += 1;
    }
    false
}

/// Derive candidate Greenhouse board slugs from a career-site domain
/// (e.g. `careers.datadoghq.com` gives `datadog` then `datadoghq`).
pub fn greenhouse_slug_candidates(domain: &str) -> (r: Vec<String>)
    ensures
        views(r@) == slug_candidates(domain@),
{
    let d = to_lower(domain);
    let parts = split_char_exec(d.as_str(), '.');
    let ghost pv = views(parts@);
    // The first meaningful label.
    let mut k: usize = 0;
    assert(pv.skip(0) =~= pv);
    while k < parts.len() && is_skip_word_exec(parts[k].as_str())
        invariant
            pv == views(parts@),
            k <= parts.len(),
            first_meaningful(pv) == first_meaningful(pv.skip(k as int)),
        decreases parts.len() - k,
    {
        assert(pv.skip(k as int)[0] == pv[k as int]);
        assert(pv.skip(k as int).drop_first() =~= pv.skip(k + 1));
        k += 1;
    }
    let base: String = if k < parts.len() {
        assert(pv.skip(k as int)[0] == pv[k as int]);
        parts[k].clone()
    } else {
        assert(pv.skip(k as int) =~= Seq::<Seq<char>>::empty());
        if parts.len() >= 2 {
            parts[parts.len() - 2].clone()
        } else {
            return Vec::new();
        }
    };
    assert(slug_base(d@) == Some(base@));
    let bv = chars_of(base.as_str());
    let mut raw: Vec<String> = Vec::new();
    assert(views(raw@) =~= Seq::<Seq<char>>::empty());
    push_strip(&mut raw, &bv, "hq");
    push_strip(&mut raw, &bv, "inc");
    push_strip(&mut raw, &bv, "corp");
    push_strip(&mut raw, &bv, "io");
    push_strip(&mut raw, &bv, "app");
    push_strip(&mut raw, &bv, "labs");
    push_strip(&mut raw, &bv, "tech");
    push_strip(&mut raw, &bv, "dev");
    push_strip(&mut raw, &bv, "eng");
    let ghost stripped = views(raw@);
    raw.push(base.clone());
    assert(views(raw@) =~= stripped.push(base@));
    let hyphen = vec!['-'];
    assert(hyphen@ =~= seq!['-']);
    if contains_chars(&bv, &hyphen) {
        let empty: Vec<char> = Vec::new();
        let joined = replace_chars(&bv, &hyphen, &empty);
        let ghost with_base = views(raw@);
        raw.push(string_of(&joined));
        assert(views(raw@) =~= with_base.push(joined@));
    }
    assert(views(raw@) == raw_slugs(base@)) by {
        assert(Seq::<Seq<char>>::empty() + opt_strip(bv@, "hq"@) =~= opt_strip(bv@, "hq"@));
    }
    // Keep first occurrences.
    let ghost rv = views(raw@);
    let mut out: Vec<String> = Vec::new();
    let mut i: usize = 0;
    assert(rv.take(0) =~= Seq::<Seq<char>>::empty());
    while i < raw.len()
        invariant
            rv == views(raw@),
            i <= raw.len(),
            views(out@) == dedup(rv.take(i as int)),
        decreases raw.len() - i,
    {
        assert(rv.take(i + 1).drop_last() =~= rv.take(i as int));
        assert(rv.take(i + 1).last() == raw@[i as int]@);
        if !contains_string(&out, raw[i].as_str()) {
            let ghost before = views(out@);
            out.push(raw[i].clone());
            assert(views(out@) =~= before.push(raw@[i as int]@));
        }
        i += 1;
    }
    assert(rv.take(i as int) =~= rv);
    out
}


// ---------------------------------------------------------------------------
// Submission endpoints
// ---------------------------------------------------------------------------

/// The scheme of `url` as the `url` crate parses it, or `None` when it
/// does not parse; a function of the text alone.
pub uninterp spec fn parsed_url_scheme(url: Seq<char>) -> Option<Seq<char>>;

/// `url::Url::parse(raw)` then `scheme()`.
#[verifier::external_body]
fn url_scheme(raw: &str) -> (r: Option<String>)
    ensures
        match r {
            Some(s) => parsed_url_scheme(raw@) == Some(s@),
            None => parsed_url_scheme(raw@) is None,
        },
{
    url::Url::parse(raw).ok().map(|u| u.scheme().to_string())
}

/// The host of `url`, or nothing.
pub open spec fn host_or_empty(url: Seq<char>) -> Seq<char> {
    match parsed_url_host(url) {
        Some(h) => h,
        None => Seq::empty(),
    }
}

/// The Greenhouse API endpoint for a job page at `/{company}/jobs/{job}`.
pub open spec fn greenhouse_endpoint(page: Seq<char>) -> Option<Seq<char>> {
    match parsed_url_path(page) {
        Some(path) => {
            let segs = split_char(strip_char(path, '/'), '/');
            if segs.len() >= 3 && segs[1] == "jobs"@ {
                let api_host = if contains_seq(host_or_empty(page), ".eu."@) {
                    "boards-api.eu.greenhouse.io"@
                } else {
                    "boards-api.greenhouse.io"@
                };
                Some(
                    "https://"@ + api_host + "/v1/boards/"@ + segs[0] + "/jobs/"@ + segs[2]
                        + "/applications"@,
                )
            } else {
                None
            }
        },
        None => None,
    }
}

/// Where and how a job application from `page` with form action `action`
/// is submitted: `(URL, content type)`.
pub open spec fn ats_endpoint(page: Seq<char>, action: Seq<char>) -> (Seq<char>, Seq<char>) {
    let explicit = action.len() > 0 && action != "#"@;
    if explicit && has_prefix(action, "http"@) {
        (action, "application/json"@)
    } else if explicit && joined_url(page, action) is Some {
        (joined_url(page, action)->0, "application/json"@)
    } else if contains_seq(page, "greenhouse.io"@) && greenhouse_endpoint(page) is Some {
        (greenhouse_endpoint(page)->0, "multipart/form-data"@)
    } else if contains_seq(page, "lever.co"@) {
        (
            if has_suffix(page, "/apply"@) {
                page
            } else {
                strip_end_char(page, '/') + "/apply"@
            },
            "application/x-www-form-urlencoded"@,
        )
    } else if contains_seq(page, "ashbyhq.com"@) && parsed_url_path(page) is Some {
        (
            (match parsed_url_scheme(page) {
                Some(s) => s,
                None => Seq::empty(),
            }) + "://"@ + host_or_empty(page) + strip_end_char(parsed_url_path(page)->0, '/')
                + "/application/submit"@,
            "application/json"@,
        )
    } else {
        (page, "application/json"@)
    }
}

fn greenhouse_endpoint_exec(page: &str) -> (r: Option<String>)
    ensures
        match r {
            Some(u) => greenhouse_endpoint(page@) == Some(u@),
            None => greenhouse_endpoint(page@) is None,
        },
{
    match url_path(page) {
        Some(path) => {
            let trimmed = string_of(&strip_char_exec(&chars_of(path.as_str()), '/'));
            let segs = split_char_exec(trimmed.as_str(), '/');
            let ghost sv = views(segs@);
            if segs.len() >= 3 && str_eq(segs[1].as_str(), "jobs") {
                assert(sv[1] == segs@[1]@);
                let host = match url_host(page) {
                    Some(h) => h,
                    None => String::new(),
                };
                let api_host = if str_contains(host.as_str(), ".eu.") {
                    "boards-api.eu.greenhouse.io"
                } else {
                    "boards-api.greenhouse.io"
                };
                let mut u = owned("https://");
                push_str(&mut u, api_host);
                push_str(&mut u, "/v1/boards/");
                push_str(&mut u, segs[0].as_str());
                push_str(&mut u, "/jobs/");
                push_str(&mut u, segs[2].as_str());
                push_str(&mut u, "/applications");
                assert(sv[0] == segs@[0]@);
                assert(sv[2] == segs@[2]@);
                Some(u)
            } else {
                proof {
                    if segs.len() >= 3 {
                        assert(sv[1] == segs@[1]@);
                    }
                }
                None
            }
        },
        None => None,
    }
}

/// Detect the submission endpoint of a job application for known
/// applicant-tracking systems; returns `(submit URL, content type)`.
pub fn detect_ats_submit_endpoint(page_url: &str, form_action: &str) -> (r: (String, String))
    ensures
        (r.0@, r.1@) == ats_endpoint(page_url@, form_action@),
{
    let explicit = !form_action.is_empty() && !str_eq(form_action, "#");
    if explicit {
        if starts_with(form_action, "http") {
            return (owned(form_action), owned("application/json"));
        }
        if let Some(resolved) = url_join(page_url, form_action) {
            return (resolved, owned("application/json"));
        }
    }
    if str_contains(page_url, "greenhouse.io") {
        if let Some(api_url) = greenhouse_endpoint_exec(page_url) {
            return (api_url, owned("multipart/form-data"));
        }
    }
    if str_contains(page_url, "lever.co") {
        let submit = if ends_with(page_url, "/apply") {
            owned(page_url)
        } else {
            let mut s = string_of(&strip_end_char_exec(&chars_of(page_url), '/'));
            push_str(&mut s, "/apply");
            s
        };
        return (submit, owned("application/x-www-form-urlencoded"));
    }
    if str_contains(page_url, "ashbyhq.com") {
        if let Some(path) = url_path(page_url) {
            let mut s = match url_scheme(page_url) {
                Some(sc) => sc,
                None => String::new(),
            };
            push_str(&mut s, "://");
            let host = match url_host(page_url) {
                Some(h) => h,
                None => String::new(),
            };
            push_str(&mut s, host.as_str());
            push_chars(&mut s, &strip_end_char_exec(&chars_of(path.as_str()), '/'));
            push_str(&mut s, "/application/submit");
            return (s, owned("application/json"));
        }
    }
    (owned(page_url), owned("application/json"))
}

// ---------------------------------------------------------------------------
// Laws
// ---------------------------------------------------------------------------

/// The de-duplicated list holds exactly the elements of the list it came from.
pub proof fn lemma_dedup_contains(s: Seq<Seq<char>>, x: Seq<char>)
    ensures
        dedup(s).contains(x) == s.contains(x),
    decreases s.len(),
{
    if s.len() > 0 {
        lemma_dedup_contains(s.drop_last(), x);
        lemma_dedup_contains(s.drop_last(), s.last());
        lemma_push_contains(s.drop_last(), s.last(), x);
        assert(s.drop_last().push(s.last()) =~= s);
        let d = dedup(s.drop_last());
        if !d.contains(s.last()) {
            lemma_push_contains(d, s.last(), x);
        }
    }
}

/// No slug is repeated in a de-duplicated list.
pub proof fn lemma_dedup_distinct(s: Seq<Seq<char>>)
    ensures
        forall|i: int, j: int| 0 <= i < j < dedup(s).len() ==> dedup(s)[i] != dedup(s)[j],
    decreases s.len(),
{
    if s.len() > 0 {
        lemma_dedup_distinct(s.drop_last());
        let d = dedup(s.drop_last());
        if !d.contains(s.last()) {
            assert forall|i: int, j: int| 0 <= i < j < d.push(s.last()).len() implies d.push(
                s.last(),
            )[i] != d.push(s.last())[j] by {
                if j == d.len() {
                    if d[i] == s.last() {
                        assert(d.contains(s.last()));
                    }
                }
            }
        }
    }
}

/// The company label itself is always a candidate, and no candidate is
/// repeated.
pub proof fn lemma_slug_candidates(domain: Seq<char>)
    ensures
        slug_base(lowercase(domain)) matches Some(b) ==> slug_candidates(domain).contains(b),
        forall|i: int, j: int|
            0 <= i < j < slug_candidates(domain).len() ==> slug_candidates(domain)[i]
                != slug_candidates(domain)[j],
{
    match slug_base(lowercase(domain)) {
        Some(b) => {
            let raw = raw_slugs(b);
            let stripped = opt_strip(b, "hq"@) + opt_strip(b, "inc"@) + opt_strip(b, "corp"@)
                + opt_strip(b, "io"@) + opt_strip(b, "app"@) + opt_strip(b, "labs"@) + opt_strip(
                b,
                "tech"@,
            ) + opt_strip(b, "dev"@) + opt_strip(b, "eng"@);
            assert(raw[stripped.len() as int] == b);
            assert(raw.contains(b));
            lemma_dedup_contains(raw, b);
            lemma_dedup_distinct(raw);
        },
        None => {},
    }
}

} // verus!
