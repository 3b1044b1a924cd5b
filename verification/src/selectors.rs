//! Adaptive self-healing selectors.
//!
//! When a CSS selector no longer finds its element, the selector falls back
//! through other strategies (text, ARIA role, attributes, structure). This
//! module holds the strategies whose decisions are exact: CSS, role,
//! attribute and structural matching. Confidence scores are kept in
//! thousandths.

use vstd::prelude::*;
use crate::assoc::entries_view;
use crate::text::{
    alphanumeric, whitespace, lowercase, trimmed, strip_char, strip_end_char, join_with,
    first_occurrence_from, contains_seq, has_prefix, lemma_first_occurrence, lemma_push_contains,
    chars_of, string_of, owned, push_str, push_chars, str_eq, chars_eq, to_lower, str_contains,
    is_alphanumeric, is_whitespace, find_from, slice_chars, trim_chars, strip_char_exec,
    strip_end_char_exec,
};

verus! {

/// A selector that can self-heal when the primary strategy fails.
#[derive(Debug, Clone)]
pub struct AdaptiveSelector {
    /// The CSS selector as first written.
    pub primary: String,
    /// Optional visible-text hint (e.g. a button label).
    pub text_hint: Option<String>,
    /// Optional ARIA role (e.g. "button", "link", "textbox").
    pub role_hint: Option<String>,
    /// Optional element tag name.
    pub tag_hint: Option<String>,
    /// Attributes to match on: name and a fragment of the value.
    pub attribute_hints: Vec<(String, String)>,
}

/// Which strategy resolved the selector.
#[derive(Debug, Clone, Copy, PartialEq, Eq, Structural)]
pub enum SelectorStrategy {
    /// Exact CSS selector match.
    CssExact,
    /// Matched by visible text content.
    TextContent,
    /// Matched by ARIA role and name.
    RoleName,
    /// Matched by attribute similarity.
    AttributeFuzzy,
    /// Matched by tag and position on the page.
    TagPosition,
    /// No automatic match: needs a model to decide.
    LlmFallback,
}

/// An element from the DOM snapshot, simplified for matching.
#[derive(Debug, Clone)]
pub struct MatchCandidate {
    pub ref_id: u32,
    pub tag: String,
    pub role: String,
    pub text: String,
    pub attributes: Vec<(String, String)>,
}

/// A strategy's match with a fixed confidence, in thousandths.
#[derive(Debug, Clone)]
pub struct SelectorHit {
    pub ref_id: u32,
    pub strategy: SelectorStrategy,
    pub confidence_permille: u32,
    pub explanation: String,
}

/// The attribute strategy's best match: how many attribute hints the
/// element satisfied, out of all the selector's hints.
#[derive(Debug, Clone)]
pub struct AttributeHit {
    pub ref_id: u32,
    pub matched: usize,
    pub explanation: String,
}

// ---------------------------------------------------------------------------
// Generic searches over index ranges
// ---------------------------------------------------------------------------

/// The least index in `i .. n` satisfying `p`.
pub open spec fn first_from(i: int, n: int, p: spec_fn(int) -> bool) -> Option<int>
    decreases n - i,
{
    if i >= n {
        None
    } else if p(i) {
        Some(i)
    } else {
        first_from(i + 1, n, p)
    }
}

/// How many indices in `0 .. n` satisfy `p`.
pub open spec fn count_where(n: int, p: spec_fn(int) -> bool) -> nat
    decreases n,
{
    if n <= 0 {
        0
    } else {
        count_where(n - 1, p) + if p(n - 1) {
            1nat
        } else {
            0nat
        }
    }
}

/// What `first_from` finds satisfies `p`, lies in range, and nothing
/// before it does.
pub proof fn lemma_first_from(i: int, n: int, p: spec_fn(int) -> bool)
    ensures
        first_from(i, n, p) matches Some(k) ==> i <= k < n && p(k) && forall|j: int|
            i <= j < k ==> !#[trigger] p(j),
        first_from(i, n, p) is None ==> forall|j: int| i <= j < n ==> !#[trigger] p(j),
    decreases n - i,
{
    if i < n && !p(i) {
        lemma_first_from(i + 1, n, p);
    }
}

/// No index satisfying `p` means a count of zero.
proof fn lemma_count_zero(n: int, p: spec_fn(int) -> bool)
    requires
        forall|j: int| 0 <= j < n ==> !#[trigger] p(j),
    ensures
        count_where(n, p) == 0,
    decreases n,
{
    if n > 0 {
        lemma_count_zero(n - 1, p);
    }
}

// ---------------------------------------------------------------------------
// Character classes and tokens
// ---------------------------------------------------------------------------

/// A character allowed in an id or class name.
pub open spec fn ident_char(c: char) -> bool {
    alphanumeric(c) || c == '-' || c == '_'
}

/// The leading run of identifier characters of `s`.
pub open spec fn ident_prefix(s: Seq<char>) -> Seq<char>
    decreases s.len(),
{
    if s.len() > 0 && ident_char(s[0]) {
        seq![s[0]] + ident_prefix(s.drop_first())
    } else {
        Seq::empty()
    }
}

/// `c` folded to lower case if it is an ASCII capital, as a code point.
pub open spec fn ascii_fold(c: char) -> u32 {
    if 'A' <= c && c <= 'Z' {
        (c as u32 + 32) as u32
    } else {
        c as u32
    }
}

/// Equality ignoring ASCII case (`str::eq_ignore_ascii_case`).
pub open spec fn eq_ascii_ci(a: Seq<char>, b: Seq<char>) -> bool {
    a.len() == b.len() && forall|i: int| 0 <= i < a.len() ==> ascii_fold(a[i]) == ascii_fold(b[i])
}

/// The whitespace-separated tokens of `s` after a pending token `cur`
/// (`str::split_whitespace`).
pub open spec fn ws_tokens_from(s: Seq<char>, cur: Seq<char>) -> Seq<Seq<char>>
    decreases s.len(),
{
    let pending = if cur.len() > 0 {
        seq![cur]
    } else {
        Seq::empty()
    };
    if s.len() == 0 {
        pending
    } else if whitespace(s[0]) {
        pending + ws_tokens_from(s.drop_first(), Seq::empty())
    } else {
        ws_tokens_from(s.drop_first(), cur.push(s[0]))
    }
}

/// The whitespace-separated tokens of `s`.
pub open spec fn ws_tokens(s: Seq<char>) -> Seq<Seq<char>> {
    ws_tokens_from(s, Seq::empty())
}

/// Every character of `s` is alphanumeric.
pub open spec fn all_alphanumeric(s: Seq<char>) -> bool {
    forall|i: int| 0 <= i < s.len() ==> alphanumeric(#[trigger] s[i])
}

fn ident_prefix_exec(s: &Vec<char>, from: usize) -> (r: Vec<char>)
    requires
        from <= s.len(),
    ensures
        r@ == ident_prefix(s@.skip(from as int)),
{
    let mut r: Vec<char> = Vec::new();
    let mut k = from;
    while k < s.len() && (is_alphanumeric(s[k]) || s[k] == '-' || s[k] == '_')
        invariant
            from <= k <= s.len(),
            ident_prefix(s@.skip(from as int)) == r@ + ident_prefix(s@.skip(k as int)),
        decreases s.len() - k,
    {
        assert(s@.skip(k as int).drop_first() =~= s@.skip(k + 1));
        assert(s@.skip(k as int)[0] == s@[k as int]);
        let ghost before = r@;
        r.push(s[k]);
        assert(before + (seq![s@[k as int]] + ident_prefix(s@.skip(k + 1))) =~= r@ + ident_prefix(
            s@.skip(k + 1),
        ));
        k += 1;
    }
    proof {
        if k < s.len() {
            assert(s@.skip(k as int)[0] == s@[k as int]);
        }
        assert(r@ + Seq::<char>::empty() =~= r@);
    }
    r
}

fn eq_ascii_ci_exec(a: &str, b: &str) -> (r: bool)
    ensures
        r == eq_ascii_ci(a@, b@),
{
    let av = chars_of(a);
    let bv = chars_of(b);
    if av.len() != bv.len() {
        return false;
    }
    let mut i: usize = 0;
    while i < av.len()
        invariant
            av@ == a@,
            bv@ == b@,
            av.len() == bv.len(),
            i <= av.len(),
            forall|j: int| 0 <= j < i ==> ascii_fold(av@[j]) == ascii_fold(bv@[j]),
        decreases av.len() - i,
    {
        let x = av[i];
        let y = bv[i];
        let fx: u32 = if 'A' <= x && x <= 'Z' { x as u32 + 32 } else { x as u32 };
        let fy: u32 = if 'A' <= y && y <= 'Z' { y as u32 + 32 } else { y as u32 };
        if fx != fy {
            return false;
        }
        i += 1;
    }
    true
}

fn has_token(value: &str, token: &Vec<char>) -> (b: bool)
    ensures
        b == ws_tokens(value@).contains(token@),
{
    let v = chars_of(value);
    let n = v.len();
    let mut cur: Vec<char> = Vec::new();
    let mut found = false;
    let ghost mut done: Seq<Seq<char>> = Seq::empty();
    let mut i: usize = 0;
    assert(v@.skip(0) =~= v@);
    while i < n
        invariant
            n == v.len(),
            v@ == value@,
            i <= n,
            done + ws_tokens_from(v@.skip(i as int), cur@) == ws_tokens(value@),
            found == done.contains(token@),
        decreases n - i,
    {
        let c = v[i];
        assert(v@.skip(i as int).drop_first() =~= v@.skip(i + 1));
        assert(v@.skip(i as int)[0] == c);
        if is_whitespace(c) {
            if cur.len() > 0 {
                let eq = chars_eq(&cur, token);
                proof {
                    lemma_push_contains(done, cur@, token@);
                    assert(done + (seq![cur@] + ws_tokens_from(v@.skip(i + 1), Seq::empty()))
                        =~= done.push(cur@) + ws_tokens_from(v@.skip(i + 1), Seq::empty()));
                    done = done.push(cur@);
                }
                found = found || eq;
            } else {
                assert(Seq::<Seq<char>>::empty() + ws_tokens_from(v@.skip(i + 1), Seq::empty())
                    =~= ws_tokens_from(v@.skip(i + 1), Seq::empty()));
            }
            cur = Vec::new();
            assert(cur@ =~= Seq::<char>::empty());
        } else {
            cur.push(c);
        }
        i += 1;
    }
    assert(v@.skip(n as int) =~= Seq::<char>::empty());
    if cur.len() > 0 {
        let eq = chars_eq(&cur, token);
        proof {
            lemma_push_contains(done, cur@, token@);
            assert(done + seq![cur@] =~= done.push(cur@));
        }
        found = found || eq;
    } else {
        assert(done + Seq::<Seq<char>>::empty() =~= done);
    }
    found
}

// ---------------------------------------------------------------------------
// Strategy 1: CSS
// ---------------------------------------------------------------------------

/// Candidate `c` carries attribute `name` with exactly `value`.
pub open spec fn has_attr_eq(c: MatchCandidate, name: Seq<char>, value: Seq<char>) -> bool {
    exists|k: int|
        0 <= k < c.attributes@.len() && (#[trigger] entries_view(c.attributes@)[k]) == (name, value)
}

/// Candidate `c` carries a `class` attribute one of whose tokens is `cls`.
pub open spec fn has_class(c: MatchCandidate, cls: Seq<char>) -> bool {
    exists|k: int|
        0 <= k < c.attributes@.len() && (#[trigger] entries_view(c.attributes@)[k]).0 == "class"@
            && ws_tokens(entries_view(c.attributes@)[k].1).contains(cls)
}

/// Candidate `c` carries attribute `name`, with value `value` unless that
/// is empty.
pub open spec fn has_attr_like(c: MatchCandidate, name: Seq<char>, value: Seq<char>) -> bool {
    exists|k: int|
        0 <= k < c.attributes@.len() && (#[trigger] entries_view(c.attributes@)[k]).0 == name && (
        value.len() == 0 || entries_view(c.attributes@)[k].1 == value)
}

/// `(tag, attribute name, attribute value)` of a selector of the form
/// `tag[name=value]`, when it holds a `[`.
pub open spec fn css_attr_parts(sel: Seq<char>) -> Option<(Seq<char>, Seq<char>, Seq<char>)> {
    match first_occurrence_from(sel, seq!['['], 0) {
        None => None,
        Some(i) => {
            let tag = sel.take(i);
            let part = strip_end_char(sel.skip(i + 1), ']');
            match first_occurrence_from(part, seq!['='], 0) {
                Some(j) => Some(
                    (
                        tag,
                        trimmed(part.take(j)),
                        strip_char(strip_char(trimmed(part.skip(j + 1)), '"'), '\''),
                    ),
                ),
                None => Some((tag, trimmed(part), Seq::empty())),
            }
        },
    }
}

/// Candidate `i` has `id` as its `id` attribute.
pub open spec fn id_pred(cs: Seq<MatchCandidate>, id: Seq<char>) -> spec_fn(int) -> bool {
    |i: int| has_attr_eq(cs[i], "id"@, id)
}

/// Candidate `i` has class `cls`.
pub open spec fn class_pred(cs: Seq<MatchCandidate>, cls: Seq<char>) -> spec_fn(int) -> bool {
    |i: int| has_class(cs[i], cls)
}

/// Candidate `i` has tag `tag` (or `tag` is empty) and the attribute.
pub open spec fn attr_pred(
    cs: Seq<MatchCandidate>,
    tag: Seq<char>,
    name: Seq<char>,
    value: Seq<char>,
) -> spec_fn(int) -> bool {
    |i: int| (tag.len() == 0 || eq_ascii_ci(cs[i].tag@, tag)) && has_attr_like(cs[i], name, value)
}

/// Candidate `i` has tag `tag`, ignoring ASCII case.
pub open spec fn tag_pred(cs: Seq<MatchCandidate>, tag: Seq<char>) -> spec_fn(int) -> bool {
    |i: int| eq_ascii_ci(cs[i].tag@, tag)
}

/// The match by `#id`, as `(ref_id, confidence, explanation)`.
pub open spec fn css_id_match(sel: Seq<char>, cs: Seq<MatchCandidate>) -> Option<(u32, u32, Seq<char>)> {
    if has_prefix(sel, seq!['#']) {
        let id = ident_prefix(sel.drop_first());
        match first_from(0, cs.len() as int, id_pred(cs, id)) {
            Some(i) => Some((cs[i].ref_id, 1000u32, "Matched #"@ + id)),
            None => None,
        }
    } else {
        None
    }
}

/// The match by `.class`.
pub open spec fn css_class_match(sel: Seq<char>, cs: Seq<MatchCandidate>) -> Option<(u32, u32, Seq<char>)> {
    if has_prefix(sel, seq!['.']) {
        let cls = ident_prefix(sel.drop_first());
        match first_from(0, cs.len() as int, class_pred(cs, cls)) {
            Some(i) => Some((cs[i].ref_id, 950u32, "Matched ."@ + cls)),
            None => None,
        }
    } else {
        None
    }
}

/// The match by `tag[name=value]`.
pub open spec fn css_attr_match(sel: Seq<char>, cs: Seq<MatchCandidate>) -> Option<(u32, u32, Seq<char>)> {
    match css_attr_parts(sel) {
        None => None,
        Some(parts) => {
            let (tag, name, value) = parts;
            match first_from(0, cs.len() as int, attr_pred(cs, tag, name, value)) {
                Some(i) => Some(
                    (
                        cs[i].ref_id,
                        900u32,
                        "Matched "@ + tag + "["@ + name + "="@ + value + "]"@,
                    ),
                ),
                None => None,
            }
        },
    }
}

/// The match by a bare tag name, when exactly one element has that tag.
pub open spec fn css_tag_match(sel: Seq<char>, cs: Seq<MatchCandidate>) -> Option<(u32, u32, Seq<char>)> {
    let p = tag_pred(cs, sel);
    if all_alphanumeric(sel) && count_where(cs.len() as int, p) == 1 {
        match first_from(0, cs.len() as int, p) {
            Some(i) => Some((cs[i].ref_id, 700u32, "Matched single <"@ + sel + ">"@)),
            None => None,
        }
    } else {
        None
    }
}

/// The CSS strategy: `#id`, then `.class`, then `tag[attr=value]`, then a
/// bare tag, first that matches.
pub open spec fn css_match(sel: Seq<char>, cs: Seq<MatchCandidate>) -> Option<(u32, u32, Seq<char>)> {
    if css_id_match(sel, cs) is Some {
        css_id_match(sel, cs)
    } else if css_class_match(sel, cs) is Some {
        css_class_match(sel, cs)
    } else if css_attr_match(sel, cs) is Some {
        css_attr_match(sel, cs)
    } else {
        css_tag_match(sel, cs)
    }
}

/// `h` is the hit that `expected` describes, found by `strategy`.
pub open spec fn hit_is(
    h: Option<SelectorHit>,
    expected: Option<(u32, u32, Seq<char>)>,
    strategy: SelectorStrategy,
) -> bool {
    match h {
        Some(m) => expected matches Some(e) && m.ref_id == e.0 && m.confidence_permille == e.1
            && m.explanation@ == e.2 && m.strategy == strategy,
        None => expected is None,
    }
}



// ---------------------------------------------------------------------------
// Strategies 3 to 5: role, attributes, structure
// ---------------------------------------------------------------------------

/// Candidate `i`'s lower-cased role is `rl`.
pub open spec fn role_pred(cs: Seq<MatchCandidate>, rl: Seq<char>) -> spec_fn(int) -> bool {
    |i: int| lowercase(cs[i].role@) == rl
}

/// Candidate `i`'s lower-cased role is `rl` and its lower-cased text
/// contains `tl`.
pub open spec fn role_text_pred(cs: Seq<MatchCandidate>, rl: Seq<char>, tl: Seq<char>) -> spec_fn(
    int,
) -> bool {
    |i: int| lowercase(cs[i].role@) == rl && contains_seq(lowercase(cs[i].text@), tl)
}

/// Candidate `i`'s lower-cased tag is `tl`.
pub open spec fn lower_tag_pred(cs: Seq<MatchCandidate>, tl: Seq<char>) -> spec_fn(int) -> bool {
    |i: int| lowercase(cs[i].tag@) == tl
}

/// The role strategy: the only element with the role hint, or else the
/// first such element whose text contains the text hint.
pub open spec fn role_match(sel: AdaptiveSelector, cs: Seq<MatchCandidate>) -> Option<
    (u32, u32, Seq<char>),
> {
    match sel.role_hint {
        None => None,
        Some(role) => {
            let rl = lowercase(role@);
            if count_where(cs.len() as int, role_pred(cs, rl)) == 1 {
                match first_from(0, cs.len() as int, role_pred(cs, rl)) {
                    Some(i) => Some(
                        (cs[i].ref_id, 800u32, "Single element with role '"@ + role@ + "'"@),
                    ),
                    None => None,
                }
            } else {
                match sel.text_hint {
                    None => None,
                    Some(t) => match first_from(
                        0,
                        cs.len() as int,
                        role_text_pred(cs, rl, lowercase(t@)),
                    ) {
                        Some(i) => Some(
                            (
                                cs[i].ref_id,
                                850u32,
                                "Role '"@ + role@ + "' with text '"@ + t@ + "'"@,
                            ),
                        ),
                        None => None,
                    },
                }
            }
        },
    }
}

/// The structural strategy: the only element with the tag hint, or else
/// the first one when the primary selector asks for a position.
pub open spec fn structural_match(sel: AdaptiveSelector, cs: Seq<MatchCandidate>) -> Option<
    (u32, u32, Seq<char>),
> {
    match sel.tag_hint {
        None => None,
        Some(tag) => {
            let p = lower_tag_pred(cs, lowercase(tag@));
            if count_where(cs.len() as int, p) == 1 {
                match first_from(0, cs.len() as int, p) {
                    Some(i) => Some((cs[i].ref_id, 500u32, "Only <"@ + tag@ + "> on page"@)),
                    None => None,
                }
            } else if contains_seq(sel.primary@, "first"@) || contains_seq(sel.primary@, ":nth"@) {
                match first_from(0, cs.len() as int, p) {
                    Some(i) => Some((cs[i].ref_id, 400u32, "First <"@ + tag@ + "> on page"@)),
                    None => None,
                }
            } else {
                None
            }
        },
    }
}

/// Some attribute has the hint's name and a value containing its fragment.
pub open spec fn hint_hit(attrs: Seq<(Seq<char>, Seq<char>)>, h: (Seq<char>, Seq<char>)) -> bool {
    exists|k: int| 0 <= k < attrs.len() && (#[trigger] attrs[k]).0 == h.0 && contains_seq(attrs[k].1, h.1)
}

/// Names of the hints that `attrs` satisfies, in hint order.
pub open spec fn hit_names(
    attrs: Seq<(Seq<char>, Seq<char>)>,
    hints: Seq<(Seq<char>, Seq<char>)>,
) -> Seq<Seq<char>>
    decreases hints.len(),
{
    if hints.len() == 0 {
        Seq::empty()
    } else if hint_hit(attrs, hints.last()) {
        hit_names(attrs, hints.drop_last()).push(hints.last().0)
    } else {
        hit_names(attrs, hints.drop_last())
    }
}

/// How many hints candidate `c` satisfies.
pub open spec fn hint_score(c: MatchCandidate, hints: Seq<(Seq<char>, Seq<char>)>) -> nat {
    hit_names(entries_view(c.attributes@), hints).len()
}

/// Index of the first candidate among the first `n` with the highest
/// positive score.
pub open spec fn best_attr(cs: Seq<MatchCandidate>, hints: Seq<(Seq<char>, Seq<char>)>, n: int) -> Option<int>
    decreases n,
{
    if n <= 0 {
        None
    } else {
        let b = best_attr(cs, hints, n - 1);
        let s = hint_score(cs[n - 1], hints);
        if s > 0 && (match b {
            None => true,
            Some(j) => s > hint_score(cs[j], hints),
        }) {
            Some(n - 1)
        } else {
            b
        }
    }
}

/// The attribute strategy, as `(ref_id, hints satisfied, explanation)`.
pub open spec fn attribute_match(sel: AdaptiveSelector, cs: Seq<MatchCandidate>) -> Option<
    (u32, nat, Seq<char>),
> {
    let hints = entries_view(sel.attribute_hints@);
    if hints.len() == 0 {
        None
    } else {
        match best_attr(cs, hints, cs.len() as int) {
            Some(i) => Some(
                (
                    cs[i].ref_id,
                    hint_score(cs[i], hints),
                    "Matched attributes: "@ + join_with(
                        hit_names(entries_view(cs[i].attributes@), hints),
                        ", "@,
                    ),
                ),
            ),
            None => None,
        }
    }
}


/// The characters of an optional string.
pub open spec fn opt_chars(o: Option<String>) -> Option<Seq<char>> {
    match o {
        Some(s) => Some(s@),
        None => None,
    }
}

/// The characters of an optional string slice.
pub open spec fn opt_str_chars(o: Option<&str>) -> Option<Seq<char>> {
    match o {
        Some(s) => Some(s@),
        None => None,
    }
}

/// Outcome of the strategy cascade.
#[derive(Debug, Clone)]
pub enum Resolution {
    /// Resolved by the CSS, role or structural strategy.
    Hit(SelectorHit),
    /// Resolved by the attribute strategy.
    Attributes(AttributeHit),
    /// Resolved by the text strategy, which the caller ran.
    Text,
    /// Every strategy failed: a model has to pick the element.
    Unresolved,
}

/// What the cascade decides, given whether the text strategy matched:
/// CSS first, then text, role, attributes and structure.
pub open spec fn cascade_spec(
    sel: AdaptiveSelector,
    cs: Seq<MatchCandidate>,
    text_matched: bool,
    r: Resolution,
) -> bool {
    if css_match(sel.primary@, cs) is Some {
        r matches Resolution::Hit(h) && hit_is(Some(h), css_match(sel.primary@, cs), SelectorStrategy::CssExact)
    } else if text_matched {
        r is Text
    } else if role_match(sel, cs) is Some {
        r matches Resolution::Hit(h) && hit_is(Some(h), role_match(sel, cs), SelectorStrategy::RoleName)
    } else if attribute_match(sel, cs) is Some {
        r matches Resolution::Attributes(h) && attribute_match(sel, cs) matches Some(e) && h.ref_id
            == e.0 && h.matched == e.1 && h.explanation@ == e.2
    } else if structural_match(sel, cs) is Some {
        r matches Resolution::Hit(h) && hit_is(
            Some(h),
            structural_match(sel, cs),
            SelectorStrategy::TagPosition,
        )
    } else {
        r is Unresolved
    }
}

// ---------------------------------------------------------------------------
// Executable searches
// ---------------------------------------------------------------------------

/// Count the indices below `n` that `check` accepts, and find the first.
fn scan_candidates(
    n: usize,
    check: impl Fn(usize) -> bool,
    Ghost(p): Ghost<spec_fn(int) -> bool>,
) -> (r: (usize, Option<usize>))
    requires
        forall|i: usize| i < n ==> call_requires(check, (i,)),
        forall|i: usize, b: bool| i < n && call_ensures(check, (i,), b) ==> b == p(i as int),
    ensures
        r.0 == count_where(n as int, p),
        r.1 matches Some(k) ==> k < n,
        r.0 > 0 ==> r.1 is Some,
        match r.1 {
            Some(k) => first_from(0, n as int, p) == Some(k as int),
            None => first_from(0, n as int, p) is None,
        },
{
    let mut count: usize = 0;
    let mut first: Option<usize> = None;
    let mut i: usize = 0;
    while i < n
        invariant
            i <= n,
            count <= i,
            count == count_where(i as int, p),
            count > 0 ==> first is Some,
            forall|j: usize| j < n ==> call_requires(check, (j,)),
            forall|j: usize, b: bool| j < n && call_ensures(check, (j,), b) ==> b == p(j as int),
            match first {
                Some(k) => k < i && p(k as int) && forall|j: int| 0 <= j < k ==> !#[trigger] p(j),
                None => forall|j: int| 0 <= j < i ==> !#[trigger] p(j),
            },
        decreases n - i,
    {
        let b = check(i);
        if b {
            count = count + 1;
            if first.is_none() {
                first = Some(i);
            }
        }
        i += 1;
    }
    proof {
        lemma_first_from(0, n as int, p);
    }
    (count, first)
}

fn attr_eq_exec(c: &MatchCandidate, name: &str, value: &Vec<char>) -> (b: bool)
    ensures
        b == has_attr_eq(*c, name@, value@),
{
    let mut k: usize = 0;
    while k < c.attributes.len()
        invariant
            k <= c.attributes.len(),
            forall|j: int| 0 <= j < k ==> entries_view(c.attributes@)[j] != (name@, value@),
        decreases c.attributes.len() - k,
    {
        let a = &c.attributes[k];
        assert(entries_view(c.attributes@)[k as int] == (a.0@, a.1@));
        let v = chars_of(a.1.as_str());
        if str_eq(a.0.as_str(), name) && chars_eq(&v, value) {
            return true;
        }
        k += 1;
    }
    false
}

fn class_exec(c: &MatchCandidate, cls: &Vec<char>) -> (b: bool)
    ensures
        b == has_class(*c, cls@),
{
    let mut k: usize = 0;
    while k < c.attributes.len()
        invariant
            k <= c.attributes.len(),
            forall|j: int|
                0 <= j < k ==> !((#[trigger] entries_view(c.attributes@)[j]).0 == "class"@
                    && ws_tokens(entries_view(c.attributes@)[j].1).contains(cls@)),
        decreases c.attributes.len() - k,
    {
        let a = &c.attributes[k];
        assert(entries_view(c.attributes@)[k as int] == (a.0@, a.1@));
        if str_eq(a.0.as_str(), "class") && has_token(a.1.as_str(), cls) {
            return true;
        }
        k += 1;
    }
    false
}

fn attr_like_exec(c: &MatchCandidate, name: &Vec<char>, value: &Vec<char>) -> (b: bool)
    ensures
        b == has_attr_like(*c, name@, value@),
{
    let mut k: usize = 0;
    while k < c.attributes.len()
        invariant
            k <= c.attributes.len(),
            forall|j: int|
                0 <= j < k ==> !((#[trigger] entries_view(c.attributes@)[j]).0 == name@ && (
                value@.len() == 0 || entries_view(c.attributes@)[j].1 == value@)),
        decreases c.attributes.len() - k,
    {
        let a = &c.attributes[k];
        assert(entries_view(c.attributes@)[k as int] == (a.0@, a.1@));
        let nv = chars_of(a.0.as_str());
        let vv = chars_of(a.1.as_str());
        if chars_eq(&nv, name) && (value.len() == 0 || chars_eq(&vv, value)) {
            return true;
        }
        k += 1;
    }
    false
}

fn all_alphanumeric_exec(s: &Vec<char>) -> (b: bool)
    ensures
        b == all_alphanumeric(s@),
{
    let mut i: usize = 0;
    while i < s.len()
        invariant
            i <= s.len(),
            forall|j: int| 0 <= j < i ==> alphanumeric(#[trigger] s@[j]),
        decreases s.len() - i,
    {
        if !is_alphanumeric(s[i]) {
            return false;
        }
        i += 1;
    }
    true
}

fn hint_hit_exec(c: &MatchCandidate, hname: &str, hval: &str) -> (b: bool)
    ensures
        b == hint_hit(entries_view(c.attributes@), (hname@, hval@)),
{
    let mut k: usize = 0;
    while k < c.attributes.len()
        invariant
            k <= c.attributes.len(),
            forall|j: int|
                0 <= j < k ==> !((#[trigger] entries_view(c.attributes@)[j]).0 == hname@
                    && contains_seq(entries_view(c.attributes@)[j].1, hval@)),
        decreases c.attributes.len() - k,
    {
        let a = &c.attributes[k];
        assert(entries_view(c.attributes@)[k as int] == (a.0@, a.1@));
        if str_eq(a.0.as_str(), hname) && str_contains(a.1.as_str(), hval) {
            return true;
        }
        k += 1;
    }
    false
}

/// How many hints `c` satisfies, and their names joined with `", "`.
fn hint_names_exec(c: &MatchCandidate, hints: &Vec<(String, String)>) -> (r: (usize, String))
    ensures
        r.0 == hint_score(*c, entries_view(hints@)),
        r.1@ == join_with(hit_names(entries_view(c.attributes@), entries_view(hints@)), ", "@),
{
    let ghost attrs = entries_view(c.attributes@);
    let ghost hv = entries_view(hints@);
    let mut count: usize = 0;
    let mut joined = String::new();
    let mut h: usize = 0;
    assert(hv.take(0) =~= Seq::<(Seq<char>, Seq<char>)>::empty());
    while h < hints.len()
        invariant
            attrs == entries_view(c.attributes@),
            hv == entries_view(hints@),
            h <= hints.len(),
            count <= h,
            count == hit_names(attrs, hv.take(h as int)).len(),
            joined@ == join_with(hit_names(attrs, hv.take(h as int)), ", "@),
        decreases hints.len() - h,
    {
        let e = &hints[h];
        assert(hv.take(h + 1).drop_last() =~= hv.take(h as int));
        assert(hv.take(h + 1).last() == (e.0@, e.1@));
        if hint_hit_exec(c, e.0.as_str(), e.1.as_str()) {
            if count > 0 {
                push_str(&mut joined, ", ");
            }
            push_str(&mut joined, e.0.as_str());
            proof {
                let names = hit_names(attrs, hv.take(h as int));
                if count == 0 {
                    assert(names.push(e.0@).len() == 1);
                    assert(names.push(e.0@)[0] == e.0@);
                }
                assert(names.push(e.0@).drop_last() =~= names);
            }
            count += 1;
        }
        h += 1;
    }
    assert(hv.take(h as int) =~= hv);
    (count, joined)
}

/// A hit found by `strategy`.
fn make_hit(
    ref_id: u32,
    strategy: SelectorStrategy,
    confidence_permille: u32,
    explanation: String,
) -> (h: SelectorHit)
    ensures
        h.ref_id == ref_id,
        h.confidence_permille == confidence_permille,
        h.explanation == explanation,
        h.strategy == strategy,
{
    SelectorHit { ref_id, strategy, confidence_permille, explanation }
}

impl AdaptiveSelector {
    /// Strategy 1: match by `#id`, `.class`, `tag[attr=value]` or a bare
    /// tag parsed from the primary selector.
    #[verifier::rlimit(40)]
    pub fn match_css(&self, candidates: &[MatchCandidate]) -> (r: Option<SelectorHit>)
        ensures
            hit_is(r, css_match(self.primary@, candidates@), SelectorStrategy::CssExact),
    {
        let sel = chars_of(self.primary.as_str());
        let n = candidates.len();
        // `#id`
        if sel.len() > 0 && sel[0] == '#' {
            let id = ident_prefix_exec(&sel, 1);
            assert(sel@.skip(1) =~= sel@.drop_first());
            assert(seq![sel@[0]] =~= sel@.subrange(0, 1));
            let ghost p = id_pred(candidates@, id@);
            let check = |i: usize| -> (b: bool)
                requires
                    i < candidates.len(),
                ensures
                    b == id_pred(candidates@, id@)(i as int),
                { attr_eq_exec(&candidates[i], "id", &id) };
            let (_, first) = scan_candidates(n, check, Ghost(p));
            if let Some(i) = first {
                let mut e = owned("Matched #");
                push_chars(&mut e, &id);
                return Some(make_hit(candidates[i].ref_id, SelectorStrategy::CssExact, 1000, e));
            }
            assert(css_id_match(self.primary@, candidates@) is None);
        } else {
            if sel.len() > 0 {
                assert(sel@.subrange(0, 1)[0] == sel@[0]);
            }
            assert(css_id_match(self.primary@, candidates@) is None);
        }
        // `.class`
        if sel.len() > 0 && sel[0] == '.' {
            let cls = ident_prefix_exec(&sel, 1);
            assert(sel@.skip(1) =~= sel@.drop_first());
            assert(seq![sel@[0]] =~= sel@.subrange(0, 1));
            let ghost p = class_pred(candidates@, cls@);
            let check = |i: usize| -> (b: bool)
                requires
                    i < candidates.len(),
                ensures
                    b == class_pred(candidates@, cls@)(i as int),
                { class_exec(&candidates[i], &cls) };
            let (_, first) = scan_candidates(n, check, Ghost(p));
            if let Some(i) = first {
                let mut e = owned("Matched .");
                push_chars(&mut e, &cls);
                return Some(make_hit(candidates[i].ref_id, SelectorStrategy::CssExact, 950, e));
            }
            assert(css_class_match(self.primary@, candidates@) is None);
        } else {
            if sel.len() > 0 {
                assert(sel@.subrange(0, 1)[0] == sel@[0]);
            }
            assert(css_class_match(self.primary@, candidates@) is None);
        }
        // `tag[attr=value]`
        let open = vec!['['];
        assert(open@ =~= seq!['[']);
        if let Some(i) = find_from(&sel, &open, 0) {
            proof {
                lemma_first_occurrence(sel@, open@, 0);
                assert(i + 1 <= sel@.len());
            }
            let tag = slice_chars(&sel, 0, i);
            let rest = slice_chars(&sel, i + 1, sel.len());
            assert(tag@ =~= sel@.take(i as int));
            assert(rest@ =~= sel@.skip(i + 1));
            let part = strip_end_char_exec(&rest, ']');
            let eqv = vec!['='];
            assert(eqv@ =~= seq!['=']);
            let (name, value) = match find_from(&part, &eqv, 0) {
                Some(j) => {
                    proof {
                        lemma_first_occurrence(part@, eqv@, 0);
                        assert(j + 1 <= part@.len());
                    }
                    assert(j < part.len());
                    let left = slice_chars(&part, 0, j);
                    let right = slice_chars(&part, j + 1, part.len());
                    assert(left@ =~= part@.take(j as int));
                    assert(right@ =~= part@.skip(j + 1));
                    let v0 = trim_chars(&right);
                    let v1 = strip_char_exec(&v0, '"');
                    (trim_chars(&left), strip_char_exec(&v1, '\''))
                },
                None => (trim_chars(&part), Vec::new()),
            };
            assert(css_attr_parts(self.primary@) == Some((tag@, name@, value@)));
            let ghost p = attr_pred(candidates@, tag@, name@, value@);
            let tag_s = string_of(&tag);
            let check = |k: usize| -> (b: bool)
                requires
                    k < candidates.len(),
                ensures
                    b == attr_pred(candidates@, tag@, name@, value@)(k as int),
                {
                    (tag.len() == 0 || eq_ascii_ci_exec(candidates[k].tag.as_str(), tag_s.as_str()))
                        && attr_like_exec(&candidates[k], &name, &value)
                };
            let (_, first) = scan_candidates(n, check, Ghost(p));
            if let Some(k) = first {
                let mut e = owned("Matched ");
                push_chars(&mut e, &tag);
                push_str(&mut e, "[");
                push_chars(&mut e, &name);
                push_str(&mut e, "=");
                push_chars(&mut e, &value);
                push_str(&mut e, "]");
                return Some(make_hit(candidates[k].ref_id, SelectorStrategy::CssExact, 900, e));
            }
        }
        assert(css_attr_match(self.primary@, candidates@) is None);
        // bare tag
        if all_alphanumeric_exec(&sel) {
            let ghost p = tag_pred(candidates@, sel@);
            let check = |k: usize| -> (b: bool)
                requires
                    k < candidates.len(),
                ensures
                    b == tag_pred(candidates@, sel@)(k as int),
                { eq_ascii_ci_exec(candidates[k].tag.as_str(), self.primary.as_str()) };
            let (count, first) = scan_candidates(n, check, Ghost(p));
            if count == 1 {
                if let Some(k) = first {
                    let mut e = owned("Matched single <");
                    push_str(&mut e, self.primary.as_str());
                    push_str(&mut e, ">");
                    return Some(make_hit(candidates[k].ref_id, SelectorStrategy::CssExact, 700, e));
                }
            }
        }
        None
    }

    /// Strategy 3: match by ARIA role, narrowed by the text hint when
    /// several elements share the role.
    pub fn match_role(&self, candidates: &[MatchCandidate]) -> (r: Option<SelectorHit>)
        ensures
            hit_is(r, role_match(*self, candidates@), SelectorStrategy::RoleName),
    {
        let n = candidates.len();
        match &self.role_hint {
            None => None,
            Some(role) => {
                let rl = to_lower(role.as_str());
                let ghost p = role_pred(candidates@, rl@);
                let check = |i: usize| -> (b: bool)
                    requires
                        i < candidates.len(),
                    ensures
                        b == role_pred(candidates@, rl@)(i as int),
                    {
                        let l = to_lower(candidates[i].role.as_str());
                        str_eq(l.as_str(), rl.as_str())
                    };
                let (count, first) = scan_candidates(n, check, Ghost(p));
                if count == 1 {
                    let i = first.unwrap();
                    let mut e = owned("Single element with role '");
                    push_str(&mut e, role.as_str());
                    push_str(&mut e, "'");
                    return Some(make_hit(candidates[i].ref_id, SelectorStrategy::RoleName, 800, e));
                }
                match &self.text_hint {
                    None => None,
                    Some(t) => {
                        let tl = to_lower(t.as_str());
                        let ghost q = role_text_pred(candidates@, rl@, tl@);
                        let check2 = |i: usize| -> (b: bool)
                            requires
                                i < candidates.len(),
                            ensures
                                b == role_text_pred(candidates@, rl@, tl@)(i as int),
                            {
                                let l = to_lower(candidates[i].role.as_str());
                                let lt = to_lower(candidates[i].text.as_str());
                                str_eq(l.as_str(), rl.as_str()) && str_contains(
                                    lt.as_str(),
                                    tl.as_str(),
                                )
                            };
                        let (_, first2) = scan_candidates(n, check2, Ghost(q));
                        match first2 {
                            Some(i) => {
                                let mut e = owned("Role '");
                                push_str(&mut e, role.as_str());
                                push_str(&mut e, "' with text '");
                                push_str(&mut e, t.as_str());
                                push_str(&mut e, "'");
                                Some(make_hit(candidates[i].ref_id, SelectorStrategy::RoleName, 850, e))
                            },
                            None => None,
                        }
                    },
                }
            },
        }
    }

    /// Strategy 5: match by tag when it is unique on the page, or take the
    /// first element of that tag when the primary selector asks for a
    /// position (`first`, `:nth`).
    pub fn match_structural(&self, candidates: &[MatchCandidate]) -> (r: Option<SelectorHit>)
        ensures
            hit_is(r, structural_match(*self, candidates@), SelectorStrategy::TagPosition),
    {
        let n = candidates.len();
        match &self.tag_hint {
            None => None,
            Some(tag) => {
                let tl = to_lower(tag.as_str());
                let ghost p = lower_tag_pred(candidates@, tl@);
                let check = |i: usize| -> (b: bool)
                    requires
                        i < candidates.len(),
                    ensures
                        b == lower_tag_pred(candidates@, tl@)(i as int),
                    {
                        let l = to_lower(candidates[i].tag.as_str());
                        str_eq(l.as_str(), tl.as_str())
                    };
                let (count, first) = scan_candidates(n, check, Ghost(p));
                if count == 1 {
                    let i = first.unwrap();
                    let mut e = owned("Only <");
                    push_str(&mut e, tag.as_str());
                    push_str(&mut e, "> on page");
                    return Some(make_hit(candidates[i].ref_id, SelectorStrategy::TagPosition, 500, e));
                }
                if str_contains(self.primary.as_str(), "first") || str_contains(
                    self.primary.as_str(),
                    ":nth",
                ) {
                    if let Some(i) = first {
                        let mut e = owned("First <");
                        push_str(&mut e, tag.as_str());
                        push_str(&mut e, "> on page");
                        return Some(
                            make_hit(candidates[i].ref_id, SelectorStrategy::TagPosition, 400, e),
                        );
                    }
                }
                None
            },
        }
    }

    /// Strategy 4: the first element satisfying the most attribute hints
    /// (at least one).
    pub fn match_attributes(&self, candidates: &[MatchCandidate]) -> (r: Option<AttributeHit>)
        ensures
            match r {
                Some(h) => attribute_match(*self, candidates@) matches Some(e) && h.ref_id == e.0
                    && h.matched == e.1 && h.explanation@ == e.2,
                None => attribute_match(*self, candidates@) is None,
            },
    {
        if self.attribute_hints.len() == 0 {
            return None;
        }
        let ghost cs = candidates@;
        let ghost hv = entries_view(self.attribute_hints@);
        let mut best: Option<(usize, usize, String)> = None;
        let mut i: usize = 0;
        while i < candidates.len()
            invariant
                cs == candidates@,
                hv == entries_view(self.attribute_hints@),
                i <= candidates.len(),
                match best {
                    Some(b) => best_attr(cs, hv, i as int) == Some(b.0 as int) && b.0 < i && b.1
                        == hint_score(cs[b.0 as int], hv) && b.2@ == join_with(
                        hit_names(entries_view(cs[b.0 as int].attributes@), hv),
                        ", "@,
                    ),
                    None => best_attr(cs, hv, i as int) is None,
                },
            decreases candidates.len() - i,
        {
            let (score, joined) = hint_names_exec(&candidates[i], &self.attribute_hints);
            let better = score > 0 && match &best {
                None => true,
                Some(b) => score > b.1,
            };
            if better {
                best = Some((i, score, joined));
            }
            i += 1;
        }
        match best {
            Some(b) => {
                let mut e = owned("Matched attributes: ");
                push_str(&mut e, b.2.as_str());
                Some(AttributeHit { ref_id: candidates[b.0].ref_id, matched: b.1, explanation: e })
            },
            None => None,
        }
    }

    /// A selector from just a CSS string.
    pub fn css(selector: &str) -> (s: Self)
        ensures
            s.primary@ == selector@,
            s.text_hint is None,
            s.role_hint is None,
            s.tag_hint is None,
            s.attribute_hints@.len() == 0,
    {
        AdaptiveSelector {
            primary: owned(selector),
            text_hint: None,
            role_hint: None,
            tag_hint: None,
            attribute_hints: Vec::new(),
        }
    }

    /// A selector with text, role and tag hints.
    pub fn rich(selector: &str, text: Option<&str>, role: Option<&str>, tag: Option<&str>) -> (s: Self)
        ensures
            s.primary@ == selector@,
            opt_chars(s.text_hint) == opt_str_chars(text),
            opt_chars(s.role_hint) == opt_str_chars(role),
            opt_chars(s.tag_hint) == opt_str_chars(tag),
            s.attribute_hints@.len() == 0,
    {
        let text_hint = match text {
            Some(t) => Some(owned(t)),
            None => None,
        };
        let role_hint = match role {
            Some(t) => Some(owned(t)),
            None => None,
        };
        let tag_hint = match tag {
            Some(t) => Some(owned(t)),
            None => None,
        };
        AdaptiveSelector {
            primary: owned(selector),
            text_hint,
            role_hint,
            tag_hint,
            attribute_hints: Vec::new(),
        }
    }

    /// This selector with one more attribute hint.
    pub fn with_attribute(self, name: &str, value_fragment: &str) -> (s: Self)
        ensures
            s.primary == self.primary,
            s.text_hint == self.text_hint,
            s.role_hint == self.role_hint,
            s.tag_hint == self.tag_hint,
            entries_view(s.attribute_hints@) == entries_view(self.attribute_hints@).push(
                (name@, value_fragment@),
            ),
    {
        let mut this = self;
        this.attribute_hints.push((owned(name), owned(value_fragment)));
        assert(entries_view(this.attribute_hints@) =~= entries_view(self.attribute_hints@).push(
            (name@, value_fragment@),
        ));
        this
    }

    /// Run the cascade given whether the text strategy (which weighs its
    /// candidates by floating-point scores, and so runs outside) matched.
    pub fn cascade(&self, candidates: &[MatchCandidate], text_matched: bool) -> (r: Resolution)
        ensures
            cascade_spec(*self, candidates@, text_matched, r),
    {
        if let Some(h) = self.match_css(candidates) {
            return Resolution::Hit(h);
        }
        if text_matched {
            return Resolution::Text;
        }
        if let Some(h) = self.match_role(candidates) {
            return Resolution::Hit(h);
        }
        if let Some(h) = self.match_attributes(candidates) {
            return Resolution::Attributes(h);
        }
        if let Some(h) = self.match_structural(candidates) {
            return Resolution::Hit(h);
        }
        Resolution::Unresolved
    }
}

} // verus!
