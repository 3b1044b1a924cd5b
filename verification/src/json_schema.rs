//! A simple schema of a JSON value, as API discovery reports it: type names
//! for scalars, object keys mapped to their types (nested objects one level
//! deep), arrays described by their first item.
//!
//! Only the shape of a value matters here, so a value is held as a
//! [`JsonShape`]: its kind, the keys of its objects and the items of its
//! arrays, without the scalars themselves.

use vstd::prelude::*;
use crate::text::{owned, join_with, join_strings, views, push_str, chars_of};
use crate::tab_actions::{json_quoted, json_string};
use serde_json::Value;

verus! {

/// The shape of a JSON value.
#[derive(Debug)]
pub enum JsonShape {
    Null,
    Bool,
    Number,
    Str,
    /// An array and its items, in order.
    Array(Vec<JsonShape>),
    /// An object and its members, in order.
    Object(Vec<(String, JsonShape)>),
}

/// A schema: a type name, or an object of schemas by key.
#[derive(Debug)]
pub enum Schema {
    Name(String),
    Object(Vec<(String, Schema)>),
}

/// The JSON type name of a value.
pub open spec fn kind_name(v: JsonShape) -> Seq<char> {
    match v {
        JsonShape::Null => "null"@,
        JsonShape::Bool => "boolean"@,
        JsonShape::Number => "number"@,
        JsonShape::Str => "string"@,
        JsonShape::Array(_) => "array"@,
        JsonShape::Object(_) => "object"@,
    }
}

/// `s` is the type name `name`.
pub open spec fn names(s: Schema, name: Seq<char>) -> bool {
    s matches Schema::Name(n) && n@ == name
}

/// `s` is the schema of a member of an object: scalars by name, an array by
/// its type and the type name of its first item, an object by the type
/// names of its members.
pub open spec fn member_schema(s: Schema, v: JsonShape) -> bool {
    match v {
        JsonShape::Array(items) => s matches Schema::Object(out)
            && out@.len() == (if items@.len() > 0 { 2int } else { 1int })
            && out@[0].0@ == "type"@ && names(out@[0].1, "array"@)
            && (items@.len() > 0 ==> out@[1].0@ == "items"@ && names(out@[1].1, kind_name(items@[0]))),
        JsonShape::Object(members) => s matches Schema::Object(out)
            && out@.len() == members@.len()
            && forall|i: int| 0 <= i < members@.len() ==> #[trigger] out@[i].0@ == members@[i].0@
                && names(out@[i].1, kind_name(members@[i].1)),
        _ => names(s, kind_name(v)),
    }
}

/// `s` is the schema of `v`: an object maps each key to its member schema,
/// an array gives its type and the schema of its first item, a scalar is
/// its type name.
pub open spec fn schema_of(s: Schema, v: JsonShape) -> bool
    decreases v,
{
    match v {
        JsonShape::Object(members) => s matches Schema::Object(out)
            && out@.len() == members@.len()
            && forall|i: int| 0 <= i < members@.len() ==> #[trigger] out@[i].0@ == members@[i].0@
                && member_schema(out@[i].1, members@[i].1),
        JsonShape::Array(items) => s matches Schema::Object(out)
            && out@.len() == (if items@.len() > 0 { 2int } else { 1int })
            && out@[0].0@ == "type"@ && names(out@[0].1, "array"@)
            && (items@.len() > 0 ==> out@[1].0@ == "items"@ && {
                proof {
                    assert(decreases_to!(v => items));
                    assert(decreases_to!(items => items@));
                    assert(decreases_to!(items@ => items@[0]));
                }
                schema_of(out@[1].1, items@[0])
            }),
        _ => names(s, kind_name(v)),
    }
}

/// The type name of `v`, as a schema.
fn scalar_type_name(v: &JsonShape) -> (r: Schema)
    ensures
        names(r, kind_name(*v)),
{
    let name = match v {
        JsonShape::Null => "null",
        JsonShape::Bool => "boolean",
        JsonShape::Number => "number",
        JsonShape::Str => "string",
        JsonShape::Array(_) => "array",
        JsonShape::Object(_) => "object",
    };
    Schema::Name(owned(name))
}

/// The schema of an array whose first item has schema `first`.
fn array_schema(first: Option<Schema>) -> (r: Schema)
    ensures
        r matches Schema::Object(out) && out@.len() == (if first is Some { 2int } else { 1int })
            && out@[0].0@ == "type"@ && names(out@[0].1, "array"@)
            && (first matches Some(f) ==> out@[1].0@ == "items"@ && out@[1].1 == f),
{
    let mut inner: Vec<(String, Schema)> = Vec::new();
    inner.push((owned("type"), Schema::Name(owned("array"))));
    match first {
        Some(f) => inner.push((owned("items"), f)),
        None => {},
    }
    Schema::Object(inner)
}

/// The schema of a member of an object.
fn member_schema_of(v: &JsonShape) -> (r: Schema)
    ensures
        member_schema(r, *v),
{
    match v {
        JsonShape::Array(items) => {
            let first = if items.len() > 0 { Some(scalar_type_name(&items[0])) } else { None };
            array_schema(first)
        },
        JsonShape::Object(members) => {
            let mut out: Vec<(String, Schema)> = Vec::new();
            let mut i: usize = 0;
            while i < members.len()
                invariant
                    i <= members@.len(),
                    out@.len() == i,
                    forall|k: int| 0 <= k < i ==> #[trigger] out@[k].0@ == members@[k].0@
                        && names(out@[k].1, kind_name(members@[k].1)),
                decreases members.len() - i,
            {
                out.push((members[i].0.clone(), scalar_type_name(&members[i].1)));
                i += 1;
            }
            Schema::Object(out)
        },
        _ => scalar_type_name(v),
    }
}

/// Infers the schema of a JSON value.
pub fn infer_json_schema(v: &JsonShape) -> (r: Schema)
    ensures
        schema_of(r, *v),
    decreases v,
{
    match v {
        JsonShape::Object(members) => {
            let mut out: Vec<(String, Schema)> = Vec::new();
            let mut i: usize = 0;
            while i < members.len()
                invariant
                    i <= members@.len(),
                    out@.len() == i,
                    forall|k: int| 0 <= k < i ==> #[trigger] out@[k].0@ == members@[k].0@
                        && member_schema(out@[k].1, members@[k].1),
                decreases members.len() - i,
            {
                out.push((members[i].0.clone(), member_schema_of(&members[i].1)));
                i += 1;
            }
            Schema::Object(out)
        },
        JsonShape::Array(items) => {
            let first = if items.len() > 0 {
                proof {
                    assert(decreases_to!(*v => *items));
                    assert(decreases_to!(*items => items@));
                    assert(decreases_to!(items@ => items@[0]));
                }
                Some(infer_json_schema(&items[0]))
            } else {
                None
            };
            array_schema(first)
        },
        _ => scalar_type_name(v),
    }
}

// ---------------------------------------------------------------------------
// Parsing
// ---------------------------------------------------------------------------

/// The shape of the JSON document `body` as `serde_json` parses it into a
/// `serde_json::Value`, or `None` when `body` is not valid JSON; object
/// members in the order of `serde_json::Map` (keys sorted, each once). A
/// function of the text alone.
pub uninterp spec fn parsed_json_shape(body: Seq<char>) -> Option<JsonShape>;

/// The shape of a value `serde_json` parsed, variant by variant.
#[verifier::external_body]
fn value_shape(v: &Value) -> JsonShape {
    match v {
        Value::Null => JsonShape::Null,
        Value::Bool(_) => JsonShape::Bool,
        Value::Number(_) => JsonShape::Number,
        Value::String(_) => JsonShape::Str,
        Value::Array(items) => JsonShape::Array(items.iter().map(value_shape).collect()),
        Value::Object(m) => JsonShape::Object(m.iter().map(|(k, x)| (k.clone(), value_shape(x))).collect()),
    }
}

/// `serde_json::from_str::<serde_json::Value>(body)`, the parsed value
/// converted to its shape; `None` when the text is not valid JSON.
#[verifier::external_body]
pub(crate) fn json_body_shape(body: &str) -> (r: Option<JsonShape>)
    ensures
        r == parsed_json_shape(body@),
{
    serde_json::from_str::<serde_json::Value>(body).ok().map(|v| value_shape(&v))
}

// ---------------------------------------------------------------------------
// JSON text of a schema
// ---------------------------------------------------------------------------

/// `a` comes before `b` in the order of `String`: byte order of UTF-8, that
/// is, code points compared character by character, a prefix first.
pub open spec fn key_lt(a: Seq<char>, b: Seq<char>) -> bool
    decreases a.len(),
{
    if a.len() == 0 {
        b.len() > 0
    } else if b.len() == 0 {
        false
    } else if a[0] != b[0] {
        (a[0] as u32) < (b[0] as u32)
    } else {
        key_lt(a.drop_first(), b.drop_first())
    }
}

/// The entries of a key-ordered map after inserting `(k, v)`: the value
/// of a present key is replaced, a new key goes before the first greater
/// one.
pub open spec fn sorted_insert(es: Seq<(Seq<char>, Seq<char>)>, k: Seq<char>, v: Seq<char>) -> Seq<(Seq<char>, Seq<char>)>
    decreases es.len(),
{
    if es.len() == 0 {
        seq![(k, v)]
    } else if es[0].0 == k {
        es.update(0, (k, v))
    } else if key_lt(k, es[0].0) {
        seq![(k, v)] + es
    } else {
        seq![es[0]] + sorted_insert(es.drop_first(), k, v)
    }
}

/// The number of members of an object schema.
pub open spec fn member_count(s: Schema) -> nat {
    match s {
        Schema::Object(ms) => ms@.len(),
        _ => 0,
    }
}

/// The JSON text of a schema as `serde_json` writes it compactly once the
/// schema is a `serde_json::Value`: a type name as a string literal; an
/// object as `{"key":text,...}` over its members inserted in order into a
/// key-ordered map (a later member of the same key wins), keys ascending.
pub open spec fn schema_text(s: Schema) -> Seq<char>
    decreases s, member_count(s) + 1,
{
    match s {
        Schema::Name(n) => json_quoted(n@),
        Schema::Object(ms) => seq!['{'] + join_with(entry_texts(object_entries(s, ms@.len())), seq![',']) + seq!['}'],
    }
}

/// The key-ordered entries (key, JSON text of value) of the first `n`
/// members of an object schema.
pub open spec fn object_entries(s: Schema, n: nat) -> Seq<(Seq<char>, Seq<char>)>
    decreases s, n,
{
    match s {
        Schema::Object(ms) => if n == 0 || n > ms@.len() {
            Seq::empty()
        } else {
            proof {
                assert(decreases_to!(s => ms));
                assert(decreases_to!(ms => ms@));
                assert(decreases_to!(ms@ => ms@[n - 1]));
                assert(decreases_to!(ms@[n - 1] => ms@[n - 1].1));
            }
            sorted_insert(object_entries(s, (n - 1) as nat), ms@[n - 1].0@, schema_text(ms@[n - 1].1))
        },
        _ => Seq::empty(),
    }
}

/// Each entry as `"key":text`.
pub open spec fn entry_texts(es: Seq<(Seq<char>, Seq<char>)>) -> Seq<Seq<char>> {
    es.map_values(|e: (Seq<char>, Seq<char>)| json_quoted(e.0) + seq![':'] + e.1)
}

fn key_lt_exec(a: &Vec<char>, b: &Vec<char>) -> (r: bool)
    ensures
        r == key_lt(a@, b@),
{
    let mut i: usize = 0;
    assert(a@.skip(0) =~= a@);
    assert(b@.skip(0) =~= b@);
    while i < a.len() && i < b.len() && a[i] == b[i]
        invariant
            i <= a.len(),
            i <= b.len(),
            key_lt(a@, b@) == key_lt(a@.skip(i as int), b@.skip(i as int)),
        decreases a.len() - i,
    {
        assert(a@.skip(i as int)[0] == a@[i as int]);
        assert(b@.skip(i as int)[0] == b@[i as int]);
        assert(a@.skip(i as int).drop_first() =~= a@.skip(i + 1));
        assert(b@.skip(i as int).drop_first() =~= b@.skip(i + 1));
        i += 1;
    }
    if i == a.len() {
        i < b.len()
    } else if i == b.len() {
        false
    } else {
        assert(a@.skip(i as int)[0] == a@[i as int]);
        assert(b@.skip(i as int)[0] == b@[i as int]);
        (a[i] as u32) < (b[i] as u32)
    }
}

/// The views of key-and-text entries.
pub open spec fn entry_views(es: Seq<(String, String)>) -> Seq<(Seq<char>, Seq<char>)> {
    es.map_values(|e: (String, String)| (e.0@, e.1@))
}

fn sorted_insert_exec(es: Vec<(String, String)>, k: String, v: String) -> (r: Vec<(String, String)>)
    ensures
        entry_views(r@) == sorted_insert(entry_views(es@), k@, v@),
{
    let ghost ev = entry_views(es@);
    let kc = chars_of(k.as_str());
    let mut out: Vec<(String, String)> = Vec::new();
    let mut inserted = false;
    let mut i: usize = 0;
    assert(ev.skip(0) =~= ev);
    while i < es.len()
        invariant
            i <= es@.len(),
            ev == entry_views(es@),
            kc@ == k@,
            entry_views(out@) + (if inserted { ev.skip(i as int) } else { sorted_insert(ev.skip(i as int), k@, v@) })
                == sorted_insert(ev, k@, v@),
        decreases es.len() - i,
    {
        let ghost rest = ev.skip(i as int);
        let ghost before = entry_views(out@);
        assert(rest[0] == ev[i as int]);
        assert(rest.drop_first() =~= ev.skip(i + 1));
        let e = &es[i];
        if inserted {
            out.push((e.0.clone(), e.1.clone()));
            assert(entry_views(out@) =~= before.push(rest[0]));
            assert(seq![rest[0]] + rest.drop_first() =~= rest);
            assert(before.push(rest[0]) + rest.drop_first() =~= before + rest);
        } else {
            let ec = chars_of(e.0.as_str());
            if crate::text::chars_eq(&ec, &kc) {
                out.push((k.clone(), v.clone()));
                inserted = true;
                assert(entry_views(out@) =~= before.push((k@, v@)));
                assert(rest.update(0, (k@, v@)) =~= seq![(k@, v@)] + rest.drop_first());
                assert(before.push((k@, v@)) + rest.drop_first() =~= before + rest.update(0, (k@, v@)));
            } else if key_lt_exec(&kc, &ec) {
                out.push((k.clone(), v.clone()));
                out.push((e.0.clone(), e.1.clone()));
                inserted = true;
                assert(entry_views(out@) =~= before.push((k@, v@)).push(rest[0]));
                assert(before.push((k@, v@)).push(rest[0]) + rest.drop_first() =~= before + (seq![(k@, v@)] + rest));
            } else {
                out.push((e.0.clone(), e.1.clone()));
                assert(entry_views(out@) =~= before.push(rest[0]));
                assert(before.push(rest[0]) + sorted_insert(rest.drop_first(), k@, v@)
                    =~= before + (seq![rest[0]] + sorted_insert(rest.drop_first(), k@, v@)));
            }
        }
        i += 1;
    }
    let ghost before = entry_views(out@);
    assert(ev.skip(i as int) =~= Seq::<(Seq<char>, Seq<char>)>::empty());
    if !inserted {
        out.push((k, v));
        assert(entry_views(out@) =~= before + seq![(k@, v@)]);
    } else {
        assert(before + Seq::<(Seq<char>, Seq<char>)>::empty() =~= before);
    }
    out
}

/// The JSON text of `s`, as `serde_json` writes the schema once it is a
/// `serde_json::Value` (objects with their keys in ascending order).
pub fn schema_json(s: &Schema) -> (r: String)
    ensures
        r@ == schema_text(*s),
    decreases s,
{
    match s {
        Schema::Name(n) => json_string(n.as_str()),
        Schema::Object(ms) => {
            let mut es: Vec<(String, String)> = Vec::new();
            let mut i: usize = 0;
            while i < ms.len()
                invariant
                    i <= ms@.len(),
                    *s == Schema::Object(*ms),
                    entry_views(es@) == object_entries(*s, i as nat),
                decreases ms.len() - i,
            {
                proof {
                    assert(decreases_to!(*s => *ms));
                    assert(decreases_to!(*ms => ms@));
                    assert(decreases_to!(ms@ => ms@[i as int]));
                    assert(decreases_to!(ms@[i as int] => ms@[i as int].1));
                }
                let t = schema_json(&ms[i].1);
                es = sorted_insert_exec(es, ms[i].0.clone(), t);
                i += 1;
            }
            let mut texts: Vec<String> = Vec::new();
            let mut j: usize = 0;
            while j < es.len()
                invariant
                    j <= es@.len(),
                    views(texts@) == entry_texts(entry_views(es@)).take(j as int),
                decreases es.len() - j,
            {
                let ghost old_texts = views(texts@);
                let mut t = json_string(es[j].0.as_str());
                push_str(&mut t, ":");
                push_str(&mut t, es[j].1.as_str());
                texts.push(t);
                proof {
                    reveal_strlit(":");
                    assert(":"@ =~= seq![':']);
                    assert(entry_views(es@)[j as int] == (es@[j as int].0@, es@[j as int].1@));
                    assert(views(texts@) =~= old_texts.push(t@));
                    assert(views(texts@) =~= entry_texts(entry_views(es@)).take(j as int + 1));
                }
                j += 1;
            }
            assert(entry_texts(entry_views(es@)).take(j as int) =~= entry_texts(entry_views(es@)));
            let body = join_strings(&texts, ",");
            let mut out = owned("{");
            push_str(&mut out, body.as_str());
            push_str(&mut out, "}");
            proof {
                reveal_strlit(",");
                reveal_strlit("{");
                reveal_strlit("}");
                assert(","@ =~= seq![',']);
                assert(out@ =~= seq!['{'] + body@ + seq!['}']);
            }
            out
        },
    }
}

} // verus!
