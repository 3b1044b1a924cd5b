//! Post-submission verification: decide from the page text and URL after a
//! form submission whether it succeeded, pull confirmation details out of
//! the page, and decide whether to retry.

use vstd::prelude::*;
use crate::text::{
    lowercase, contains_seq, to_lower, chars_of, contains_chars, str_eq, owned, concat2,
    push_str, first_occurrence_from, find_from, trimmed, trim_chars, string_of,
    };

verus! {

/// Outcome of a submission verification check.
#[derive(Debug, Clone, PartialEq, Eq)]
pub enum VerificationResult {
    /// Strong evidence the submission succeeded (URL or text match).
    Confirmed,
    /// The URL changed after submit: probably succeeded.
    Likely,
    /// No signal either way.
    Uncertain,
    /// Error signals detected on the page.
    Failed(String),
}

/// Details extracted from a confirmation page.
#[derive(Debug, Clone, PartialEq, Eq)]
pub struct ConfirmationDetails {
    /// A confirmation/application ID if one was found.
    pub confirmation_id: Option<String>,
    /// The primary confirmation message shown on the page.
    pub message: String,
    /// Any "next steps" text.
    pub next_steps: Option<String>,
}

// ---------------------------------------------------------------------------
// Keyword tables
// ---------------------------------------------------------------------------

/// Success keywords that may appear in a post-submit URL.
pub open spec fn url_success_keywords() -> Seq<Seq<char>> {
    seq!["thank"@, "confirm"@, "success"@, "received"@, "complete"@]
}

/// Phrases in the page text that strongly indicate success.
pub open spec fn text_success_phrases() -> Seq<Seq<char>> {
    seq![
        "application received"@,
        "thank you for applying"@,
        "we'll be in touch"@,
        "application submitted"@,
        "successfully submitted"@,
    ]
}

/// Error keywords in the page text.
pub open spec fn text_error_keywords() -> Seq<Seq<char>> {
    seq!["error"@, "required field"@, "please fill"@, "invalid"@]
}

fn url_success_keywords_exec() -> (v: Vec<&'static str>)
    ensures
        v@.map_values(|s: &str| s@) == url_success_keywords(),
{
    let v = vec!["thank", "confirm", "success", "received", "complete"];
    assert(v@.map_values(|s: &str| s@) =~= url_success_keywords());
    v
}

fn text_success_phrases_exec() -> (v: Vec<&'static str>)
    ensures
        v@.map_values(|s: &str| s@) == text_success_phrases(),
{
    let v = vec![
        "application received",
        "thank you for applying",
        "we'll be in touch",
        "application submitted",
        "successfully submitted",
    ];
    assert(v@.map_values(|s: &str| s@) =~= text_success_phrases());
    v
}

fn text_error_keywords_exec() -> (v: Vec<&'static str>)
    ensures
        v@.map_values(|s: &str| s@) == text_error_keywords(),
{
    let v = vec!["error", "required field", "please fill", "invalid"];
    assert(v@.map_values(|s: &str| s@) =~= text_error_keywords());
    v
}

/// Index of the first keyword of `kws` that occurs in `s`.
pub open spec fn first_contained(s: Seq<char>, kws: Seq<Seq<char>>) -> Option<int>
    decreases kws.len(),
{
    if kws.len() == 0 {
        None
    } else {
        match first_contained(s, kws.drop_last()) {
            Some(i) => Some(i),
            None => if contains_seq(s, kws.last()) {
                Some(kws.len() - 1)
            } else {
                None
            },
        }
    }
}

/// Some keyword of `kws` occurs in `s`.
pub open spec fn contains_any(s: Seq<char>, kws: Seq<Seq<char>>) -> bool {
    first_contained(s, kws) is Some
}

fn first_contained_exec(s: &Vec<char>, kws: &Vec<&str>) -> (r: Option<usize>)
    ensures
        match r {
            Some(i) => first_contained(s@, kws@.map_values(|k: &str| k@)) == Some(i as int),
            None => first_contained(s@, kws@.map_values(|k: &str| k@)) is None,
        },
{
    let ghost ks = kws@.map_values(|k: &str| k@);
    let mut i: usize = 0;
    assert(ks.take(0) =~= Seq::<Seq<char>>::empty());
    while i < kws.len()
        invariant
            i <= kws.len(),
            ks == kws@.map_values(|k: &str| k@),
            first_contained(s@, ks.take(i as int)) is None,
        decreases kws.len() - i,
    {
        let kc = chars_of(kws[i]);
        assert(ks.take(i + 1).drop_last() =~= ks.take(i as int));
        assert(ks.take(i + 1).last() == kws@[i as int]@);
        if contains_chars(s, &kc) {
            proof { lemma_first_contained_prefix(s@, ks, i as int + 1, i as int); }
            return Some(i);
        }
        i += 1;
    }
    assert(ks.take(i as int) =~= ks);
    None
}

proof fn lemma_first_contained_prefix(s: Seq<char>, ks: Seq<Seq<char>>, n: int, i: int)
    requires
        0 < n <= ks.len(),
        first_contained(s, ks.take(n)) == Some(i),
    ensures
        first_contained(s, ks) == Some(i),
    decreases ks.len() - n,
{
    if n < ks.len() {
        assert(ks.take(n + 1).drop_last() =~= ks.take(n));
        lemma_first_contained_prefix(s, ks, n + 1, i);
    } else {
        assert(ks.take(n) =~= ks);
    }
}

/// A keyword index found is a valid index.
pub proof fn lemma_first_contained_range(s: Seq<char>, ks: Seq<Seq<char>>)
    ensures
        first_contained(s, ks) matches Some(i) ==> 0 <= i < ks.len(),
    decreases ks.len(),
{
    if ks.len() > 0 {
        lemma_first_contained_range(s, ks.drop_last());
    }
}

// ---------------------------------------------------------------------------
// Core verification
// ---------------------------------------------------------------------------

/// Message of a failure caused by error keyword `kw`.
pub open spec fn error_message(kw: Seq<char>) -> Seq<char> {
    "Page contains error keyword: \""@ + kw + "\""@
}

/// Classification of a post-submission page with text `text` at `url`,
/// reached from `previous_url`. Error keywords win; then a success keyword
/// in the URL or a success phrase in the text confirm; then a changed URL is
/// likely success; otherwise uncertain.
pub open spec fn verification_outcome(
    text: Seq<char>,
    url: Seq<char>,
    previous_url: Seq<char>,
) -> (int, Option<Seq<char>>) {
    let lt = lowercase(text);
    let lu = lowercase(url);
    match first_contained(lt, text_error_keywords()) {
        Some(k) => (3, Some(error_message(text_error_keywords()[k]))),
        None => if contains_any(lu, url_success_keywords()) || contains_any(
            lt,
            text_success_phrases(),
        ) {
            (0, None)
        } else if url != previous_url {
            (1, None)
        } else {
            (2, None)
        },
    }
}

/// The outcome code of a result: 0 confirmed, 1 likely, 2 uncertain,
/// 3 failed, with the failure message.
pub open spec fn outcome_of(r: VerificationResult) -> (int, Option<Seq<char>>) {
    match r {
        VerificationResult::Confirmed => (0, None),
        VerificationResult::Likely => (1, None),
        VerificationResult::Uncertain => (2, None),
        VerificationResult::Failed(m) => (3, Some(m@)),
    }
}

/// Inspect the post-submission page text and URL to decide whether the
/// submission succeeded.
pub fn verify_submission(snapshot_text: &str, url: &str, previous_url: &str) -> (r: VerificationResult)
    ensures
        outcome_of(r) == verification_outcome(snapshot_text@, url@, previous_url@),
{
    let lower_url = to_lower(url);
    let lower_text = to_lower(snapshot_text);
    let lu = chars_of(lower_url.as_str());
    let lt = chars_of(lower_text.as_str());

    let errs = text_error_keywords_exec();
    proof { lemma_first_contained_range(lt@, errs@.map_values(|s: &str| s@)); }
    match first_contained_exec(&lt, &errs) {
        Some(k) => {
            let mut msg = concat2("Page contains error keyword: \"", errs[k]);
            push_str(&mut msg, "\"");
            assert(errs@.map_values(|s: &str| s@)[k as int] == errs@[k as int]@);
            return VerificationResult::Failed(msg);
        },
        None => {},
    }
    let uks = url_success_keywords_exec();
    if first_contained_exec(&lu, &uks).is_some() {
        return VerificationResult::Confirmed;
    }
    let phrases = text_success_phrases_exec();
    if first_contained_exec(&lt, &phrases).is_some() {
        return VerificationResult::Confirmed;
    }
    if !str_eq(url, previous_url) {
        return VerificationResult::Likely;
    }
    VerificationResult::Uncertain
}

// ---------------------------------------------------------------------------
// Confirmation details
// ---------------------------------------------------------------------------

/// First capture group of the first match of regular expression `pattern`
/// in `text`, or `None` when the pattern is invalid or does not match; a
/// function of the two texts alone.
pub uninterp spec fn regex_capture(pattern: Seq<char>, text: Seq<char>) -> Option<Seq<char>>;

/// `regex::Regex::new(pattern)` then `captures(text)` and group 1: the text
/// of the first capture group of the leftmost match, `None` when the pattern
/// does not compile, nothing matches or group 1 did not participate.
#[verifier::external_body]
fn regex_first_capture(pattern: &str, text: &str) -> (r: Option<String>)
    ensures
        match r {
            Some(s) => regex_capture(pattern@, text@) == Some(s@),
            None => regex_capture(pattern@, text@) is None,
        },
{
    match regex::Regex::new(pattern) {
        Ok(re) => re.captures(text).and_then(|c| c.get(1)).map(|m| m.as_str().to_string()),
        Err(_) => None,
    }
}

/// Patterns for a confirmation/application ID, tried in order.
pub open spec fn id_patterns() -> Seq<Seq<char>> {
    seq![
        "(?i)(?:confirmation|application|reference|ref)[\\s#:]+([A-Za-z0-9\\-]{3,})"@,
        "(?i)(?:id|number)[\\s#:]+([A-Za-z0-9\\-]{3,})"@,
    ]
}

/// Patterns for "next steps" text, tried in order.
pub open spec fn next_step_patterns() -> Seq<Seq<char>> {
    seq![
        "(?i)((?:you will|we.ll|expect to)\\s.{10,80})"@,
        "(?i)((?:within|in)\\s+\\d+\\s+(?:business\\s+)?(?:days?|hours?|weeks?).{0,40})"@,
        "(?i)(next\\s+steps?\\s*[:.]?\\s*.{10,80})"@,
    ]
}

/// A status word that follows "application" in a sentence ("Application
/// submitted") and so names no identifier.
pub open spec fn status_word(s: Seq<char>) -> bool {
    s == "submitted"@
}

/// The confirmation ID found in `text`: the capture of the first match of
/// the first ID pattern unless it is a status word, else that of the first
/// match of the second pattern.
pub open spec fn confirmation_id_spec(text: Seq<char>) -> Option<Seq<char>> {
    match regex_capture(id_patterns()[0], text) {
        Some(m) => if status_word(m) {
            regex_capture(id_patterns()[1], text)
        } else {
            Some(m)
        },
        None => regex_capture(id_patterns()[1], text),
    }
}

/// "Next steps" text: the trimmed capture of the first pattern, starting at
/// `from`, whose trimmed capture is non-empty.
pub open spec fn next_steps_from(text: Seq<char>, from: int) -> Option<Seq<char>>
    decreases 3 - from,
{
    if from < 0 || from >= 3 {
        None
    } else {
        match regex_capture(next_step_patterns()[from], text) {
            Some(m) => if trimmed(m).len() > 0 {
                Some(trimmed(m))
            } else {
                next_steps_from(text, from + 1)
            },
            None => next_steps_from(text, from + 1),
        }
    }
}

/// A sentence break: `.` or a line feed.
pub open spec fn is_break(c: char) -> bool {
    c == '.' || c == '\n'
}

/// Index of the last break strictly before `end`, or -1.
pub open spec fn last_break_before(t: Seq<char>, end: int) -> int
    decreases end,
{
    if end <= 0 {
        -1
    } else if is_break(t[end - 1]) {
        end - 1
    } else {
        last_break_before(t, end - 1)
    }
}

/// Index of the first break at or after `from`, or `t.len()`.
pub open spec fn first_break_from(t: Seq<char>, from: int) -> int
    decreases t.len() - from,
{
    if from >= t.len() {
        t.len() as int
    } else if is_break(t[from]) {
        from
    } else {
        first_break_from(t, from + 1)
    }
}

/// The trimmed sentence of `text` around a phrase of length `plen` found at
/// `start` (positions clamped to the text).
pub open spec fn sentence_around(text: Seq<char>, start: int, plen: int) -> Seq<char> {
    let s0 = if start <= text.len() { start } else { text.len() as int };
    let a = if start + plen <= text.len() { start + plen } else { text.len() as int };
    let ss = last_break_before(text, s0) + 1;
    let fb = first_break_from(text, a);
    let se = if fb < text.len() { fb + 1 } else { text.len() as int };
    trimmed(text.subrange(ss, se))
}

proof fn lemma_first_break_is(t: Seq<char>, from: int, b: int)
    requires
        0 <= from <= b < t.len(),
        is_break(t[b]),
        forall|k: int| from <= k < b ==> !is_break(#[trigger] t[k]),
    ensures
        first_break_from(t, from) == b,
    decreases b - from,
{
    if from < b {
        lemma_first_break_is(t, from + 1, b);
    }
}

proof fn lemma_last_break_range(t: Seq<char>, end: int)
    requires
        end <= t.len(),
    ensures
        -1 <= last_break_before(t, end) < (if end > 0 { end } else { 0 }),
        last_break_before(t, end) >= 0 ==> is_break(t[last_break_before(t, end)]),
        forall|k: int| last_break_before(t, end) < k < end ==> !is_break(#[trigger] t[k]),
    decreases end,
{
    if end > 0 && !is_break(t[end - 1]) {
        lemma_last_break_range(t, end - 1);
    }
}

/// The sentence around a phrase ends at the first sentence break (`.` or a
/// line feed) at or after the end of the phrase: when that break is at
/// `b`, the sentence is the trimmed text from some point at or before the
/// phrase up to and including `b`, and nothing past `b`; it starts just
/// after the last break before the phrase (or at the start of the text).
pub proof fn lemma_sentence_ends_at_break(text: Seq<char>, start: int, plen: int, b: int)
    requires
        0 <= start,
        0 <= plen,
        start + plen <= b < text.len(),
        is_break(text[b]),
        forall|k: int| start + plen <= k < b ==> !is_break(#[trigger] text[k]),
    ensures
        exists|i: int| 0 <= i <= start && sentence_around(text, start, plen) == trimmed(#[trigger] text.subrange(i, b + 1))
            && (i == 0 || is_break(text[i - 1]))
            && forall|k: int| i <= k < start ==> !is_break(#[trigger] text[k]),
{
    lemma_first_break_is(text, start + plen, b);
    lemma_last_break_range(text, start);
    let i = last_break_before(text, start) + 1;
    assert(sentence_around(text, start, plen) == trimmed(text.subrange(i, b + 1)));
}

/// The confirmation message: the first non-empty sentence around a success
/// phrase (phrases tried in order), else "Submission confirmed".
pub open spec fn confirmation_message_from(text: Seq<char>, from: int) -> Seq<char>
    decreases 5 - from,
{
    if from < 0 || from >= 5 {
        "Submission confirmed"@
    } else {
        let phrase = text_success_phrases()[from];
        match first_occurrence_from(lowercase(text), phrase, 0) {
            Some(start) => {
                let s = sentence_around(text, start, phrase.len() as int);
                if s.len() > 0 {
                    s
                } else {
                    confirmation_message_from(text, from + 1)
                }
            },
            None => confirmation_message_from(text, from + 1),
        }
    }
}

fn extract_confirmation_id(text: &str) -> (r: Option<String>)
    ensures
        match r {
            Some(s) => confirmation_id_spec(text@) == Some(s@),
            None => confirmation_id_spec(text@) is None,
        },
{
    let p0 = "(?i)(?:confirmation|application|reference|ref)[\\s#:]+([A-Za-z0-9\\-]{3,})";
    let p1 = "(?i)(?:id|number)[\\s#:]+([A-Za-z0-9\\-]{3,})";
    match regex_first_capture(p0, text) {
        Some(m) => {
            if str_eq(m.as_str(), "submitted") {
                regex_first_capture(p1, text)
            } else {
                Some(m)
            }
        },
        None => regex_first_capture(p1, text),
    }
}

fn extract_next_steps(text: &str) -> (r: Option<String>)
    ensures
        match r {
            Some(s) => next_steps_from(text@, 0) == Some(s@),
            None => next_steps_from(text@, 0) is None,
        },
{
    let pats = vec![
        "(?i)((?:you will|we.ll|expect to)\\s.{10,80})",
        "(?i)((?:within|in)\\s+\\d+\\s+(?:business\\s+)?(?:days?|hours?|weeks?).{0,40})",
        "(?i)(next\\s+steps?\\s*[:.]?\\s*.{10,80})",
    ];
    assert(pats@.map_values(|s: &str| s@) =~= next_step_patterns());
    assert(pats@.map_values(|s: &str| s@).len() == pats@.len());
    let mut i: usize = 0;
    while i < 3
        invariant
            i <= 3,
            pats@.len() == 3,
            pats@.map_values(|s: &str| s@) == next_step_patterns(),
            next_steps_from(text@, 0) == next_steps_from(text@, i as int),
        decreases 3 - i,
    {
        assert(pats@.map_values(|s: &str| s@)[i as int] == pats@[i as int]@);
        match regex_first_capture(pats[i], text) {
            Some(m) => {
                let mc = chars_of(m.as_str());
                let t = trim_chars(&mc);
                if t.len() > 0 {
                    return Some(string_of(&t));
                }
            },
            None => {},
        }
        i += 1;
    }
    None
}

fn last_break_before_exec(t: &Vec<char>, end: usize) -> (r: usize)
    requires
        end <= t.len(),
    ensures
        r as int == last_break_before(t@, end as int) + 1,
{
    let mut e = end;
    while e > 0 && !(t[e - 1] == '.' || t[e - 1] == '\n')
        invariant
            e <= end,
            end <= t.len(),
            last_break_before(t@, end as int) == last_break_before(t@, e as int),
        decreases e,
    {
        e -= 1;
    }
    e
}

fn first_break_from_exec(t: &Vec<char>, from: usize) -> (r: usize)
    requires
        from <= t.len(),
    ensures
        r as int == first_break_from(t@, from as int),
{
    let mut f = from;
    while f < t.len() && !(t[f] == '.' || t[f] == '\n')
        invariant
            from <= f <= t.len(),
            first_break_from(t@, from as int) == first_break_from(t@, f as int),
        decreases t.len() - f,
    {
        f += 1;
    }
    f
}

fn sentence_around_exec(text: &Vec<char>, start: usize, plen: usize) -> (r: Vec<char>)
    ensures
        r@ == sentence_around(text@, start as int, plen as int),
{
    let s0 = if start <= text.len() { start } else { text.len() };
    let a = if start <= text.len() && plen <= text.len() - start {
        start + plen
    } else {
        text.len()
    };
    let ss = last_break_before_exec(text, s0);
    let fb = first_break_from_exec(text, a);
    let se = if fb < text.len() { fb + 1 } else { text.len() };
    proof {
        assert(ss <= s0) by { lemma_last_break_bound(text@, s0 as int); }
        assert(a <= fb) by { lemma_first_break_bound(text@, a as int); }
    }
    let mut sub: Vec<char> = Vec::new();
    let mut k = ss;
    while k < se
        invariant
            ss <= k <= se <= text.len(),
            sub@ == text@.subrange(ss as int, k as int),
        decreases se - k,
    {
        sub.push(text[k]);
        k += 1;
        assert(text@.subrange(ss as int, k as int) =~= text@.subrange(ss as int, k - 1).push(text@[k - 1]));
    }
    trim_chars(&sub)
}

proof fn lemma_last_break_bound(t: Seq<char>, end: int)
    ensures
        -1 <= last_break_before(t, end) < if end > 0 { end } else { 0 },
    decreases end,
{
    if end > 0 && !is_break(t[end - 1]) {
        lemma_last_break_bound(t, end - 1);
    }
}

proof fn lemma_first_break_bound(t: Seq<char>, from: int)
    requires
        from <= t.len(),
    ensures
        from <= first_break_from(t, from) <= t.len(),
    decreases t.len() - from,
{
    if from < t.len() && !is_break(t[from]) {
        lemma_first_break_bound(t, from + 1);
    }
}

/// The primary confirmation message: the first non-empty sentence of the
/// text around a success phrase, or "Submission confirmed".
pub fn extract_confirmation_message(text: &str) -> (r: String)
    ensures
        r@ == confirmation_message_from(text@, 0),
{
    let lower = to_lower(text);
    let lc = chars_of(lower.as_str());
    let tc = chars_of(text);
    let phrases = text_success_phrases_exec();
    assert(phrases@.map_values(|s: &str| s@).len() == phrases@.len());
    let mut i: usize = 0;
    while i < 5
        invariant
            i <= 5,
            phrases@.len() == 5,
            phrases@.map_values(|s: &str| s@) == text_success_phrases(),
            lc@ == lowercase(text@),
            tc@ == text@,
            confirmation_message_from(text@, 0) == confirmation_message_from(text@, i as int),
        decreases 5 - i,
    {
        assert(phrases@.map_values(|s: &str| s@)[i as int] == phrases@[i as int]@);
        let pc = chars_of(phrases[i]);
        match find_from(&lc, &pc, 0) {
            Some(start) => {
                let s = sentence_around_exec(&tc, start, pc.len());
                if s.len() > 0 {
                    return string_of(&s);
                }
            },
            None => {},
        }
        i += 1;
    }
    owned("Submission confirmed")
}

/// Details of the confirmation: present exactly when the lower-cased text
/// holds a success phrase, "confirmation" or "thank you".
pub open spec fn has_confirmation_signal(text: Seq<char>) -> bool {
    let l = lowercase(text);
    contains_any(l, text_success_phrases()) || contains_seq(l, "confirmation"@) || contains_seq(
        l,
        "thank you"@,
    )
}

/// Pull structured confirmation details out of the page text, when the page
/// looks like a confirmation.
pub fn extract_confirmation_details(snapshot_text: &str) -> (r: Option<ConfirmationDetails>)
    ensures
        r is Some <==> has_confirmation_signal(snapshot_text@),
        r matches Some(d) ==> {
            &&& d.message@ == confirmation_message_from(snapshot_text@, 0)
            &&& match d.confirmation_id {
                Some(s) => confirmation_id_spec(snapshot_text@) == Some(s@),
                None => confirmation_id_spec(snapshot_text@) is None,
            }
            &&& match d.next_steps {
                Some(s) => next_steps_from(snapshot_text@, 0) == Some(s@),
                None => next_steps_from(snapshot_text@, 0) is None,
            }
        },
{
    let lower = to_lower(snapshot_text);
    let lc = chars_of(lower.as_str());
    let phrases = text_success_phrases_exec();
    let conf = chars_of("confirmation");
    let ty = chars_of("thank you");
    let signal = first_contained_exec(&lc, &phrases).is_some() || contains_chars(&lc, &conf)
        || contains_chars(&lc, &ty);
    if !signal {
        return None;
    }
    let confirmation_id = extract_confirmation_id(snapshot_text);
    let message = extract_confirmation_message(snapshot_text);
    let next_steps = extract_next_steps(snapshot_text);
    Some(ConfirmationDetails { confirmation_id, message, next_steps })
}

// ---------------------------------------------------------------------------
// Retry logic
// ---------------------------------------------------------------------------

/// Whether the submission should be retried: a failure while attempts
/// remain, an uncertain outcome only on the first attempt, never a
/// confirmed or likely one.
pub fn should_retry(result: &VerificationResult, attempt: u32, max_attempts: u32) -> (b: bool)
    ensures
        b == match result {
            VerificationResult::Failed(_) => attempt < max_attempts,
            VerificationResult::Uncertain => attempt < 1,
            _ => false,
        },
{
    match result {
        VerificationResult::Failed(_) => attempt < max_attempts,
        VerificationResult::Uncertain => attempt < 1,
        VerificationResult::Confirmed | VerificationResult::Likely => false,
    }
}

/// Error signals take priority: a page whose lower-cased text holds an error
/// keyword is reported as failed whatever its URL says.
pub proof fn lemma_error_wins(text: Seq<char>, url: Seq<char>, previous_url: Seq<char>)
    requires
        contains_any(lowercase(text), text_error_keywords()),
    ensures
        verification_outcome(text, url, previous_url).0 == 3,
{
}

/// Without error keywords, a success keyword in the lower-cased URL confirms.
pub proof fn lemma_url_keyword_confirms(text: Seq<char>, url: Seq<char>, previous_url: Seq<char>)
    requires
        !contains_any(lowercase(text), text_error_keywords()),
        contains_any(lowercase(url), url_success_keywords()),
    ensures
        verification_outcome(text, url, previous_url).0 == 0,
{
}

/// A verified or likely submission is never retried, and retries of a
/// failure stop once `max_attempts` attempts have been made.
pub proof fn lemma_retry_bounded(r: VerificationResult, attempt: u32, max_attempts: u32)
    ensures
        (r == VerificationResult::Confirmed || r == VerificationResult::Likely) ==> !match r {
            VerificationResult::Failed(_) => attempt < max_attempts,
            VerificationResult::Uncertain => attempt < 1,
            _ => false,
        },
        attempt >= max_attempts && attempt >= 1 ==> !match r {
            VerificationResult::Failed(_) => attempt < max_attempts,
            VerificationResult::Uncertain => attempt < 1,
            _ => false,
        },
{
}

} // verus!
