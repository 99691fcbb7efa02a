use vstd::prelude::*;
use serde_json::Value;
use crate::install::InstallError;
use crate::model::{
    Artifact, AssetObject, Library, OsCondition, Rule, VersionDescriptor, VersionIndexEntry,
};

verus! {

#[verifier::external_type_specification]
#[verifier::external_body]
pub struct ExValue(serde_json::Value);

#[verifier::external_type_specification]
#[verifier::external_body]
pub struct ExJsonError(serde_json::Error);

/// A JSON value as the parser hands it over. A number is kept as its value
/// as a non-negative integer, where it has one; an object's members come in
/// the order of the parser's map (sorted by name, each name once).
pub enum JsonTree {
    Null,
    Bool(bool),
    Number(Option<u64>),
    Str(Seq<char>),
    Array(Seq<JsonTree>),
    Object(Seq<(Seq<char>, JsonTree)>),
}

/// The tree a parsed `serde_json::Value` holds.
pub uninterp spec fn tree_of(v: Value) -> JsonTree;

/// The tree serde_json parses `text` into; `None` where it refuses the text.
pub uninterp spec fn json_of(text: Seq<char>) -> Option<JsonTree>;

/// Relies on serde_json::from_str: parses a whole document into a tree,
/// failing exactly where the text is no JSON document.
#[verifier::external_body]
fn parse_document(text: &str) -> (r: Result<Value, serde_json::Error>)
    ensures
        r is Ok <==> json_of(text@) is Some,
        r matches Ok(v) ==> json_of(text@) == Some(tree_of(v)),
{
    serde_json::from_str::<Value>(text)
}

/// Relies on serde_json::Error's `Display`: a readable cause with position.
#[verifier::external_body]
fn json_error_text(e: &serde_json::Error) -> (r: String) {
    e.to_string()
}

/// Relies on serde_json::Value::get: the member `key` of an object, `None`
/// for a missing member or a value that is not an object.
#[verifier::external_body]
fn member<'a>(v: &'a Value, key: &str) -> (r: Option<&'a Value>)
    ensures
        r matches Some(x) ==> member_spec(tree_of(*v), key@) == Some(tree_of(*x)),
        r is None ==> member_spec(tree_of(*v), key@) is None,
{
    v.get(key)
}

/// Relies on serde_json::Value::is_null.
#[verifier::external_body]
fn is_null(v: &Value) -> (r: bool)
    ensures
        r == (tree_of(*v) is Null),
{
    v.is_null()
}

/// Relies on serde_json::Value::is_object.
#[verifier::external_body]
fn is_object(v: &Value) -> (r: bool)
    ensures
        r == (tree_of(*v) is Object),
{
    v.is_object()
}

/// Relies on serde_json::Value::as_str: the text of a string value.
#[verifier::external_body]
fn text_of(v: &Value) -> (r: Option<String>)
    ensures
        r matches Some(s) ==> tree_of(*v) == JsonTree::Str(s@),
        r is None ==> !(tree_of(*v) is Str),
{
    v.as_str().map(|s| s.to_string())
}

/// Relies on serde_json::Value::as_u64: a number's value as a non-negative
/// integer.
#[verifier::external_body]
fn u64_of(v: &Value) -> (r: Option<u64>)
    ensures
        r == match tree_of(*v) {
            JsonTree::Number(n) => n,
            _ => None,
        },
{
    v.as_u64()
}

/// Relies on serde_json::Value::as_array: the elements of an array value.
#[verifier::external_body]
fn elements_of<'a>(v: &'a Value) -> (r: Option<&'a Vec<Value>>)
    ensures
        r matches Some(items) ==> tree_of(*v) == JsonTree::Array(
            items@.map_values(|x: Value| tree_of(x)),
        ),
        r is None ==> !(tree_of(*v) is Array),
{
    v.as_array()
}

/// Relies on serde_json::Value::as_object: the members of an object value,
/// as name/value pairs in the map's order.
#[verifier::external_body]
fn members_of<'a>(v: &'a Value) -> (r: Option<Vec<(String, &'a Value)>>)
    ensures
        r matches Some(ms) ==> tree_of(*v) == JsonTree::Object(
            ms@.map_values(|p: (String, &Value)| (p.0@, tree_of(*p.1))),
        ),
        r is None ==> !(tree_of(*v) is Object),
{
    v.as_object().map(|m| m.iter().map(|(k, x)| (k.clone(), x)).collect())
}

/// The member `key` among `fields`: the first with that name.
pub open spec fn field_get(fields: Seq<(Seq<char>, JsonTree)>, key: Seq<char>) -> Option<JsonTree>
    decreases fields.len(),
{
    if fields.len() == 0 {
        None
    } else if fields[0].0 == key {
        Some(fields[0].1)
    } else {
        field_get(fields.drop_first(), key)
    }
}

// ---- what a document means ----

/// The member `key` of an object; `None` for a missing member or a value that
/// is not an object.
pub open spec fn member_spec(j: JsonTree, key: Seq<char>) -> Option<JsonTree> {
    match j {
        JsonTree::Object(fields) => field_get(fields, key),
        _ => None,
    }
}

/// An optional member: a `null` member counts as missing.
pub open spec fn present(m: Option<JsonTree>) -> Option<JsonTree> {
    match m {
        Some(JsonTree::Null) => None,
        _ => m,
    }
}

pub open spec fn text_spec(j: JsonTree) -> Option<Seq<char>> {
    match j {
        JsonTree::Str(s) => Some(s),
        _ => None,
    }
}

/// The text of the string member `key`.
pub open spec fn text_member(j: JsonTree, key: Seq<char>) -> Option<Seq<char>> {
    match member_spec(j, key) {
        Some(x) => text_spec(x),
        None => None,
    }
}

/// Decodes every item with `f`; fails when one item fails.
pub open spec fn decode_seq<A, T>(items: Seq<A>, f: spec_fn(A) -> Option<T>) -> Option<Seq<T>>
    decreases items.len(),
{
    if items.len() == 0 {
        Some(Seq::empty())
    } else {
        match (decode_seq(items.drop_last(), f), f(items.last())) {
            (Some(s), Some(x)) => Some(s.push(x)),
            _ => None,
        }
    }
}

pub open spec fn array_of<T>(j: JsonTree, f: spec_fn(JsonTree) -> Option<T>) -> Option<Seq<T>> {
    match j {
        JsonTree::Array(items) => decode_seq(items, f),
        _ => None,
    }
}

pub open spec fn keyed<T>(f: spec_fn(JsonTree) -> Option<T>) -> spec_fn((Seq<char>, JsonTree)) -> Option<(Seq<char>, T)> {
    |p: (Seq<char>, JsonTree)|
        match f(p.1) {
            Some(v) => Some((p.0, v)),
            None => None,
        }
}

pub open spec fn unkeyed<T>(f: spec_fn(JsonTree) -> Option<T>) -> spec_fn((Seq<char>, JsonTree)) -> Option<T> {
    |p: (Seq<char>, JsonTree)| f(p.1)
}

/// An object decoded member by member, names kept.
pub open spec fn object_of<T>(j: JsonTree, f: spec_fn(JsonTree) -> Option<T>) -> Option<Seq<(Seq<char>, T)>> {
    match j {
        JsonTree::Object(fields) => decode_seq(fields, keyed(f)),
        _ => None,
    }
}

/// An object decoded member by member, names dropped.
pub open spec fn object_values<T>(j: JsonTree, f: spec_fn(JsonTree) -> Option<T>) -> Option<Seq<T>> {
    match j {
        JsonTree::Object(fields) => decode_seq(fields, unkeyed(f)),
        _ => None,
    }
}

/// An optional member decoded with `f`: `Some(None)` when it is missing.
pub open spec fn optional<T>(m: Option<JsonTree>, f: spec_fn(JsonTree) -> Option<T>) -> Option<Option<T>> {
    match present(m) {
        None => Some(None),
        Some(x) => match f(x) {
            None => None,
            Some(v) => Some(Some(v)),
        },
    }
}

pub open spec fn text_decoder() -> spec_fn(JsonTree) -> Option<Seq<char>> {
    |j: JsonTree| text_spec(j)
}

pub open spec fn artifact_view(a: Artifact) -> (Seq<char>, Seq<char>) {
    (a.url@, a.path@)
}

/// An artifact: `{url, path}`.
pub open spec fn decode_artifact_spec(j: JsonTree) -> Option<(Seq<char>, Seq<char>)> {
    match (text_member(j, "url"@), text_member(j, "path"@)) {
        (Some(u), Some(p)) => Some((u, p)),
        _ => None,
    }
}

pub open spec fn artifact_decoder() -> spec_fn(JsonTree) -> Option<(Seq<char>, Seq<char>)> {
    |j: JsonTree| decode_artifact_spec(j)
}

pub open spec fn rule_view(r: Rule) -> (Seq<char>, Option<Seq<char>>) {
    (
        r.action@,
        match r.os {
            None => None,
            Some(o) => Some(o.name@),
        },
    )
}

pub open spec fn os_decoder() -> spec_fn(JsonTree) -> Option<Seq<char>> {
    |o: JsonTree| text_member(o, "name"@)
}

/// A rule: `{action, os?: {name}}`.
pub open spec fn decode_rule_spec(j: JsonTree) -> Option<(Seq<char>, Option<Seq<char>>)> {
    match text_member(j, "action"@) {
        None => None,
        Some(a) => match optional(member_spec(j, "os"@), os_decoder()) {
            None => None,
            Some(os) => Some((a, os)),
        },
    }
}

pub open spec fn rule_decoder() -> spec_fn(JsonTree) -> Option<(Seq<char>, Option<Seq<char>>)> {
    |j: JsonTree| decode_rule_spec(j)
}

pub open spec fn rules_decoder() -> spec_fn(JsonTree) -> Option<Seq<(Seq<char>, Option<Seq<char>>)>> {
    |j: JsonTree| array_of(j, rule_decoder())
}

pub open spec fn classifiers_decoder() -> spec_fn(JsonTree) -> Option<
    Seq<(Seq<char>, (Seq<char>, Seq<char>))>,
> {
    |j: JsonTree| object_of(j, artifact_decoder())
}

pub open spec fn natives_decoder() -> spec_fn(JsonTree) -> Option<Seq<(Seq<char>, Seq<char>)>> {
    |j: JsonTree| object_of(j, text_decoder())
}

pub open spec fn library_view(l: Library) -> (
    Option<Seq<(Seq<char>, Option<Seq<char>>)>>,
    Option<(Seq<char>, Seq<char>)>,
    Option<Seq<(Seq<char>, (Seq<char>, Seq<char>))>>,
    Option<Seq<(Seq<char>, Seq<char>)>>,
) {
    (
        match l.rules {
            None => None,
            Some(v) => Some(v@.map_values(|r: Rule| rule_view(r))),
        },
        match l.artifact {
            None => None,
            Some(a) => Some(artifact_view(a)),
        },
        match l.classifiers {
            None => None,
            Some(v) => Some(v@.map_values(|p: (String, Artifact)| (p.0@, artifact_view(p.1)))),
        },
        match l.natives {
            None => None,
            Some(v) => Some(v@.map_values(|p: (String, String)| (p.0@, p.1@))),
        },
    )
}

/// A library: `{rules?, downloads: {artifact?, classifiers?}, natives?}`.
pub open spec fn decode_library_spec(j: JsonTree) -> Option<
    (
        Option<Seq<(Seq<char>, Option<Seq<char>>)>>,
        Option<(Seq<char>, Seq<char>)>,
        Option<Seq<(Seq<char>, (Seq<char>, Seq<char>))>>,
        Option<Seq<(Seq<char>, Seq<char>)>>,
    ),
> {
    match member_spec(j, "downloads"@) {
        Some(d) => if d is Object {
            match (
                optional(member_spec(j, "rules"@), rules_decoder()),
                optional(member_spec(d, "artifact"@), artifact_decoder()),
                optional(member_spec(d, "classifiers"@), classifiers_decoder()),
                optional(member_spec(j, "natives"@), natives_decoder()),
            ) {
                (Some(r), Some(a), Some(c), Some(n)) => Some((r, a, c, n)),
                _ => None,
            }
        } else {
            None
        },
        None => None,
    }
}

pub open spec fn library_decoder() -> spec_fn(JsonTree) -> Option<
    (
        Option<Seq<(Seq<char>, Option<Seq<char>>)>>,
        Option<(Seq<char>, Seq<char>)>,
        Option<Seq<(Seq<char>, (Seq<char>, Seq<char>))>>,
        Option<Seq<(Seq<char>, Seq<char>)>>,
    ),
> {
    |j: JsonTree| decode_library_spec(j)
}

pub open spec fn descriptor_view(d: VersionDescriptor) -> (
    Seq<char>,
    Seq<
        (
            Option<Seq<(Seq<char>, Option<Seq<char>>)>>,
            Option<(Seq<char>, Seq<char>)>,
            Option<Seq<(Seq<char>, (Seq<char>, Seq<char>))>>,
            Option<Seq<(Seq<char>, Seq<char>)>>,
        ),
    >,
    Seq<char>,
    Seq<char>,
) {
    (
        d.client_url@,
        d.libraries@.map_values(|l: Library| library_view(l)),
        d.asset_index_id@,
        d.asset_index_url@,
    )
}

/// A version descriptor: `{downloads: {client: {url}}, libraries: [...],
/// assetIndex: {id, url}}`.
pub open spec fn decode_descriptor_spec(j: JsonTree) -> Option<
    (
        Seq<char>,
        Seq<
            (
                Option<Seq<(Seq<char>, Option<Seq<char>>)>>,
                Option<(Seq<char>, Seq<char>)>,
                Option<Seq<(Seq<char>, (Seq<char>, Seq<char>))>>,
                Option<Seq<(Seq<char>, Seq<char>)>>,
            ),
        >,
        Seq<char>,
        Seq<char>,
    ),
> {
    let client = match member_spec(j, "downloads"@) {
        Some(d) => match member_spec(d, "client"@) {
            Some(c) => text_member(c, "url"@),
            None => None,
        },
        None => None,
    };
    let libs = match member_spec(j, "libraries"@) {
        Some(l) => array_of(l, library_decoder()),
        None => None,
    };
    let (id, url) = match member_spec(j, "assetIndex"@) {
        Some(a) => (text_member(a, "id"@), text_member(a, "url"@)),
        None => (None, None),
    };
    match (client, libs, id, url) {
        (Some(c), Some(l), Some(i), Some(u)) => Some((c, l, i, u)),
        _ => None,
    }
}

pub open spec fn entry_view(e: VersionIndexEntry) -> (Seq<char>, Seq<char>) {
    (e.id@, e.url@)
}

pub open spec fn decode_entry_spec(j: JsonTree) -> Option<(Seq<char>, Seq<char>)> {
    match (text_member(j, "id"@), text_member(j, "url"@)) {
        (Some(i), Some(u)) => Some((i, u)),
        _ => None,
    }
}

pub open spec fn entry_decoder() -> spec_fn(JsonTree) -> Option<(Seq<char>, Seq<char>)> {
    |j: JsonTree| decode_entry_spec(j)
}

/// The version index: `{versions: [{id, url}, ...]}`.
pub open spec fn decode_index_spec(j: JsonTree) -> Option<Seq<(Seq<char>, Seq<char>)>> {
    match member_spec(j, "versions"@) {
        Some(v) => array_of(v, entry_decoder()),
        None => None,
    }
}

pub open spec fn asset_view(o: AssetObject) -> (Seq<char>, u64) {
    (o.hash@, o.size)
}

pub open spec fn decode_asset_spec(j: JsonTree) -> Option<(Seq<char>, u64)> {
    match (text_member(j, "hash"@), member_spec(j, "size"@)) {
        (Some(h), Some(JsonTree::Number(Some(n)))) => Some((h, n)),
        _ => None,
    }
}

pub open spec fn asset_decoder() -> spec_fn(JsonTree) -> Option<(Seq<char>, u64)> {
    |j: JsonTree| decode_asset_spec(j)
}

/// The asset index: `{objects: {<name>: {hash, size}}}`, names dropped.
pub open spec fn decode_assets_spec(j: JsonTree) -> Option<Seq<(Seq<char>, u64)>> {
    match member_spec(j, "objects"@) {
        Some(o) => object_values(o, asset_decoder()),
        None => None,
    }
}

/// Decoding fails as soon as one item fails.
pub proof fn lemma_decode_seq_fails<A, T>(items: Seq<A>, f: spec_fn(A) -> Option<T>, i: int)
    requires
        0 <= i < items.len(),
        f(items[i]) is None,
    ensures
        decode_seq(items, f) is None,
    decreases items.len(),
{
    if i < items.len() - 1 {
        let d = items.drop_last();
        assert(d[i] == items[i]);
        lemma_decode_seq_fails(d, f, i);
    }
}

/// Decoding a prefix one item longer.
pub proof fn lemma_decode_seq_step<A, T>(items: Seq<A>, f: spec_fn(A) -> Option<T>, i: int)
    requires
        0 <= i < items.len(),
    ensures
        decode_seq(items.subrange(0, i + 1), f) == match (
            decode_seq(items.subrange(0, i), f),
            f(items[i]),
        ) {
            (Some(s), Some(x)) => Some(s.push(x)),
            _ => None,
        },
{
    let s = items.subrange(0, i + 1);
    assert(s.drop_last() =~= items.subrange(0, i));
    assert(s.last() == items[i]);
}

// ---- reading a document ----

fn malformed(what: &str) -> (e: InstallError)
    ensures
        e matches InstallError::Parse(m) && m@ == what@,
{
    InstallError::Parse(String::from_str(what))
}

/// The member `key` of `v`, a `null` one counting as missing.
fn present_member<'a>(v: &'a Value, key: &str) -> (r: Option<&'a Value>)
    ensures
        r matches Some(x) ==> present(member_spec(tree_of(*v), key@)) == Some(tree_of(*x)),
        r is None ==> present(member_spec(tree_of(*v), key@)) is None,
{
    match member(v, key) {
        Some(x) => if is_null(x) {
            None
        } else {
            Some(x)
        },
        None => None,
    }
}

/// The text of the string member `key` of `v`.
fn text_member_exec(v: &Value, key: &str) -> (r: Result<String, InstallError>)
    ensures
        r is Ok <==> text_member(tree_of(*v), key@) is Some,
        r matches Ok(s) ==> text_member(tree_of(*v), key@) == Some(s@),
        r matches Err(e) ==> e is Parse,
{
    match member(v, key) {
        Some(x) => match text_of(x) {
            Some(s) => Ok(s),
            None => Err(malformed(key)),
        },
        None => Err(malformed(key)),
    }
}

/// Decodes an artifact `{url, path}`.
pub fn decode_artifact(v: &Value) -> (r: Result<Artifact, InstallError>)
    ensures
        r is Ok <==> decode_artifact_spec(tree_of(*v)) is Some,
        r matches Ok(a) ==> decode_artifact_spec(tree_of(*v)) == Some(artifact_view(a)),
        r matches Err(e) ==> e is Parse,
{
    let url = text_member_exec(v, "url")?;
    let path = text_member_exec(v, "path")?;
    Ok(Artifact { url, path })
}

/// Decodes a rule `{action, os?: {name}}`.
pub fn decode_rule(v: &Value) -> (r: Result<Rule, InstallError>)
    ensures
        r is Ok <==> decode_rule_spec(tree_of(*v)) is Some,
        r matches Ok(x) ==> decode_rule_spec(tree_of(*v)) == Some(rule_view(x)),
        r matches Err(e) ==> e is Parse,
{
    let action = text_member_exec(v, "action")?;
    let os = match present_member(v, "os") {
        None => None,
        Some(o) => Some(OsCondition { name: text_member_exec(o, "name")? }),
    };
    Ok(Rule { action, os })
}

fn decode_rules(v: &Value) -> (r: Result<Vec<Rule>, InstallError>)
    ensures
        r is Ok <==> array_of(tree_of(*v), rule_decoder()) is Some,
        r matches Ok(x) ==> array_of(tree_of(*v), rule_decoder()) == Some(
            x@.map_values(|y: Rule| rule_view(y)),
        ),
        r matches Err(e) ==> e is Parse,
{
    let items = match elements_of(v) {
        Some(a) => a,
        None => {
            return Err(malformed("rules"));
        },
    };
    let ghost m = items@.map_values(|x: Value| tree_of(x));
    let mut out: Vec<Rule> = Vec::new();
    let mut i: usize = 0;
    while i < items.len()
        invariant
            0 <= i <= items@.len(),
            m == items@.map_values(|x: Value| tree_of(x)),
            array_of(tree_of(*v), rule_decoder()) == decode_seq(m, rule_decoder()),
            decode_seq(m.subrange(0, i as int), rule_decoder()) == Some(
                out@.map_values(|y: Rule| rule_view(y)),
            ),
        decreases items@.len() - i,
    {
        proof {
            lemma_decode_seq_step(m, rule_decoder(), i as int);
        }
        let x = match decode_rule(&items[i]) {
            Ok(x) => x,
            Err(e) => {
                proof {
                    lemma_decode_seq_fails(m, rule_decoder(), i as int);
                }
                return Err(e);
            },
        };
        let ghost before = out@;
        out.push(x);
        assert(out@.map_values(|y: Rule| rule_view(y)) =~= before.map_values(
            |y: Rule| rule_view(y),
        ).push(rule_view(x)));
        i = i + 1;
    }
    assert(m.subrange(0, m.len() as int) =~= m);
    Ok(out)
}

fn decode_classifiers(v: &Value) -> (r: Result<Vec<(String, Artifact)>, InstallError>)
    ensures
        r is Ok <==> object_of(tree_of(*v), artifact_decoder()) is Some,
        r matches Ok(x) ==> object_of(tree_of(*v), artifact_decoder()) == Some(
            x@.map_values(|p: (String, Artifact)| (p.0@, artifact_view(p.1))),
        ),
        r matches Err(e) ==> e is Parse,
{
    let fields = match members_of(v) {
        Some(f) => f,
        None => {
            return Err(malformed("classifiers"));
        },
    };
    let ghost m = fields@.map_values(|p: (String, &Value)| (p.0@, tree_of(*p.1)));
    let ghost f = keyed(artifact_decoder());
    let mut out: Vec<(String, Artifact)> = Vec::new();
    let mut i: usize = 0;
    while i < fields.len()
        invariant
            0 <= i <= fields@.len(),
            m == fields@.map_values(|p: (String, &Value)| (p.0@, tree_of(*p.1))),
            f == keyed(artifact_decoder()),
            object_of(tree_of(*v), artifact_decoder()) == decode_seq(m, f),
            decode_seq(m.subrange(0, i as int), f) == Some(
                out@.map_values(|p: (String, Artifact)| (p.0@, artifact_view(p.1))),
            ),
        decreases fields@.len() - i,
    {
        proof {
            lemma_decode_seq_step(m, f, i as int);
        }
        let a = match decode_artifact(fields[i].1) {
            Ok(a) => a,
            Err(e) => {
                proof {
                    lemma_decode_seq_fails(m, f, i as int);
                }
                return Err(e);
            },
        };
        let ghost before = out@;
        out.push((fields[i].0.clone(), a));
        assert(out@.map_values(|p: (String, Artifact)| (p.0@, artifact_view(p.1)))
            =~= before.map_values(|p: (String, Artifact)| (p.0@, artifact_view(p.1))).push(
            (fields@[i as int].0@, artifact_view(a)),
        ));
        i = i + 1;
    }
    assert(m.subrange(0, m.len() as int) =~= m);
    Ok(out)
}

fn decode_natives(v: &Value) -> (r: Result<Vec<(String, String)>, InstallError>)
    ensures
        r is Ok <==> object_of(tree_of(*v), text_decoder()) is Some,
        r matches Ok(x) ==> object_of(tree_of(*v), text_decoder()) == Some(
            x@.map_values(|p: (String, String)| (p.0@, p.1@)),
        ),
        r matches Err(e) ==> e is Parse,
{
    let fields = match members_of(v) {
        Some(f) => f,
        None => {
            return Err(malformed("natives"));
        },
    };
    let ghost m = fields@.map_values(|p: (String, &Value)| (p.0@, tree_of(*p.1)));
    let ghost f = keyed(text_decoder());
    let mut out: Vec<(String, String)> = Vec::new();
    let mut i: usize = 0;
    while i < fields.len()
        invariant
            0 <= i <= fields@.len(),
            m == fields@.map_values(|p: (String, &Value)| (p.0@, tree_of(*p.1))),
            f == keyed(text_decoder()),
            object_of(tree_of(*v), text_decoder()) == decode_seq(m, f),
            decode_seq(m.subrange(0, i as int), f) == Some(
                out@.map_values(|p: (String, String)| (p.0@, p.1@)),
            ),
        decreases fields@.len() - i,
    {
        proof {
            lemma_decode_seq_step(m, f, i as int);
        }
        let c = match text_of(fields[i].1) {
            Some(s) => s,
            None => {
                proof {
                    lemma_decode_seq_fails(m, f, i as int);
                }
                return Err(malformed("natives"));
            },
        };
        let ghost before = out@;
        out.push((fields[i].0.clone(), c));
        assert(out@.map_values(|p: (String, String)| (p.0@, p.1@)) =~= before.map_values(
            |p: (String, String)| (p.0@, p.1@),
        ).push((fields@[i as int].0@, c@)));
        i = i + 1;
    }
    assert(m.subrange(0, m.len() as int) =~= m);
    Ok(out)
}

/// Decodes a library `{rules?, downloads: {artifact?, classifiers?}, natives?}`.
pub fn decode_library(v: &Value) -> (r: Result<Library, InstallError>)
    ensures
        r is Ok <==> decode_library_spec(tree_of(*v)) is Some,
        r matches Ok(l) ==> decode_library_spec(tree_of(*v)) == Some(library_view(l)),
        r matches Err(e) ==> e is Parse,
{
    let downloads = match member(v, "downloads") {
        Some(d) => d,
        None => {
            return Err(malformed("downloads"));
        },
    };
    if !is_object(downloads) {
        return Err(malformed("downloads"));
    }
    let rules = match present_member(v, "rules") {
        None => None,
        Some(x) => Some(decode_rules(x)?),
    };
    let artifact = match present_member(downloads, "artifact") {
        None => None,
        Some(x) => Some(decode_artifact(x)?),
    };
    let classifiers = match present_member(downloads, "classifiers") {
        None => None,
        Some(x) => Some(decode_classifiers(x)?),
    };
    let natives = match present_member(v, "natives") {
        None => None,
        Some(x) => Some(decode_natives(x)?),
    };
    Ok(Library { rules, artifact, classifiers, natives })
}

fn decode_libraries(items: &Vec<Value>) -> (r: Result<Vec<Library>, InstallError>)
    ensures
        r is Ok <==> decode_seq(items@.map_values(|x: Value| tree_of(x)), library_decoder()) is Some,
        r matches Ok(x) ==> decode_seq(items@.map_values(|x: Value| tree_of(x)), library_decoder())
            == Some(x@.map_values(|l: Library| library_view(l))),
        r matches Err(e) ==> e is Parse,
{
    let ghost m = items@.map_values(|x: Value| tree_of(x));
    let mut libraries: Vec<Library> = Vec::new();
    let mut i: usize = 0;
    while i < items.len()
        invariant
            0 <= i <= items@.len(),
            m == items@.map_values(|x: Value| tree_of(x)),
            decode_seq(m.subrange(0, i as int), library_decoder()) == Some(
                libraries@.map_values(|l: Library| library_view(l)),
            ),
        decreases items@.len() - i,
    {
        proof {
            lemma_decode_seq_step(m, library_decoder(), i as int);
        }
        let x = match decode_library(&items[i]) {
            Ok(x) => x,
            Err(e) => {
                proof {
                    lemma_decode_seq_fails(m, library_decoder(), i as int);
                }
                return Err(e);
            },
        };
        let ghost before = libraries@;
        libraries.push(x);
        assert(libraries@.map_values(|l: Library| library_view(l)) =~= before.map_values(
            |l: Library| library_view(l),
        ).push(library_view(x)));
        i = i + 1;
    }
    assert(m.subrange(0, m.len() as int) =~= m);
    Ok(libraries)
}

/// Decodes a version descriptor: the client download, the libraries in
/// order and the asset index reference.
pub fn decode_version_descriptor(v: &Value) -> (r: Result<VersionDescriptor, InstallError>)
    ensures
        r is Ok <==> decode_descriptor_spec(tree_of(*v)) is Some,
        r matches Ok(d) ==> decode_descriptor_spec(tree_of(*v)) == Some(descriptor_view(d)),
        r matches Err(e) ==> e is Parse,
{
    let client_url = match member(v, "downloads") {
        Some(d) => match member(d, "client") {
            Some(c) => text_member_exec(c, "url")?,
            None => {
                return Err(malformed("client"));
            },
        },
        None => {
            return Err(malformed("downloads"));
        },
    };
    let items = match member(v, "libraries") {
        Some(l) => match elements_of(l) {
            Some(items) => items,
            None => {
                return Err(malformed("libraries"));
            },
        },
        None => {
            return Err(malformed("libraries"));
        },
    };
    let libraries = decode_libraries(items)?;
    let asset_index = match member(v, "assetIndex") {
        Some(a) => a,
        None => {
            return Err(malformed("assetIndex"));
        },
    };
    let asset_index_id = text_member_exec(asset_index, "id")?;
    let asset_index_url = text_member_exec(asset_index, "url")?;
    Ok(VersionDescriptor { client_url, libraries, asset_index_id, asset_index_url })
}

/// Decodes the version index, keeping its order.
pub fn decode_version_index(v: &Value) -> (r: Result<Vec<VersionIndexEntry>, InstallError>)
    ensures
        r is Ok <==> decode_index_spec(tree_of(*v)) is Some,
        r matches Ok(x) ==> decode_index_spec(tree_of(*v)) == Some(
            x@.map_values(|e: VersionIndexEntry| entry_view(e)),
        ),
        r matches Err(e) ==> e is Parse,
{
    let items = match member(v, "versions") {
        Some(l) => match elements_of(l) {
            Some(items) => items,
            None => {
                return Err(malformed("versions"));
            },
        },
        None => {
            return Err(malformed("versions"));
        },
    };
    let ghost m = items@.map_values(|x: Value| tree_of(x));
    let mut out: Vec<VersionIndexEntry> = Vec::new();
    let mut i: usize = 0;
    while i < items.len()
        invariant
            0 <= i <= items@.len(),
            m == items@.map_values(|x: Value| tree_of(x)),
            decode_index_spec(tree_of(*v)) == decode_seq(m, entry_decoder()),
            decode_seq(m.subrange(0, i as int), entry_decoder()) == Some(
                out@.map_values(|e: VersionIndexEntry| entry_view(e)),
            ),
        decreases items@.len() - i,
    {
        proof {
            lemma_decode_seq_step(m, entry_decoder(), i as int);
        }
        let id = text_member_exec(&items[i], "id");
        let url = text_member_exec(&items[i], "url");
        let (id, url) = match (id, url) {
            (Ok(id), Ok(url)) => (id, url),
            (Err(e), _) | (_, Err(e)) => {
                proof {
                    lemma_decode_seq_fails(m, entry_decoder(), i as int);
                }
                return Err(e);
            },
        };
        let ghost before = out@;
        out.push(VersionIndexEntry { id, url });
        assert(out@.map_values(|e: VersionIndexEntry| entry_view(e)) =~= before.map_values(
            |e: VersionIndexEntry| entry_view(e),
        ).push((id@, url@)));
        i = i + 1;
    }
    assert(m.subrange(0, m.len() as int) =~= m);
    Ok(out)
}

/// Decodes the asset index into its objects, in the order of the object's
/// members.
pub fn decode_asset_index(v: &Value) -> (r: Result<Vec<AssetObject>, InstallError>)
    ensures
        r is Ok <==> decode_assets_spec(tree_of(*v)) is Some,
        r matches Ok(x) ==> decode_assets_spec(tree_of(*v)) == Some(
            x@.map_values(|o: AssetObject| asset_view(o)),
        ),
        r matches Err(e) ==> e is Parse,
{
    let fields = match member(v, "objects") {
        Some(o) => match members_of(o) {
            Some(f) => f,
            None => {
                return Err(malformed("objects"));
            },
        },
        None => {
            return Err(malformed("objects"));
        },
    };
    let ghost m = fields@.map_values(|p: (String, &Value)| (p.0@, tree_of(*p.1)));
    let ghost f = unkeyed(asset_decoder());
    let mut out: Vec<AssetObject> = Vec::new();
    let mut i: usize = 0;
    while i < fields.len()
        invariant
            0 <= i <= fields@.len(),
            m == fields@.map_values(|p: (String, &Value)| (p.0@, tree_of(*p.1))),
            f == unkeyed(asset_decoder()),
            decode_assets_spec(tree_of(*v)) == decode_seq(m, f),
            decode_seq(m.subrange(0, i as int), f) == Some(
                out@.map_values(|o: AssetObject| asset_view(o)),
            ),
        decreases fields@.len() - i,
    {
        proof {
            lemma_decode_seq_step(m, f, i as int);
        }
        let o = fields[i].1;
        let hash = text_member_exec(o, "hash");
        let size = match member(o, "size") {
            Some(x) => u64_of(x),
            None => None,
        };
        let (hash, size) = match (hash, size) {
            (Ok(h), Some(n)) => (h, n),
            _ => {
                proof {
                    lemma_decode_seq_fails(m, f, i as int);
                }
                return Err(malformed("objects"));
            },
        };
        let ghost before = out@;
        out.push(AssetObject { hash, size });
        assert(out@.map_values(|o: AssetObject| asset_view(o)) =~= before.map_values(
            |o: AssetObject| asset_view(o),
        ).push((hash@, size)));
        i = i + 1;
    }
    assert(m.subrange(0, m.len() as int) =~= m);
    Ok(out)
}

fn document(text: &str) -> (r: Result<Value, InstallError>)
    ensures
        r is Ok <==> json_of(text@) is Some,
        r matches Ok(v) ==> json_of(text@) == Some(tree_of(v)),
        r matches Err(e) ==> e is Parse,
{
    match parse_document(text) {
        Ok(v) => Ok(v),
        Err(e) => Err(InstallError::Parse(json_error_text(&e))),
    }
}

/// Reads the version index document.
pub fn parse_version_index(text: &str) -> (r: Result<Vec<VersionIndexEntry>, InstallError>)
    ensures
        r is Ok <==> (json_of(text@) matches Some(j) && decode_index_spec(j) is Some),
        r matches Ok(x) ==> (json_of(text@) matches Some(j) && decode_index_spec(j) == Some(
            x@.map_values(|e: VersionIndexEntry| entry_view(e)),
        )),
        r matches Err(e) ==> e is Parse,
{
    let v = document(text)?;
    decode_version_index(&v)
}

/// Reads a version descriptor document.
pub fn parse_version_descriptor(text: &str) -> (r: Result<VersionDescriptor, InstallError>)
    ensures
        r is Ok <==> (json_of(text@) matches Some(j) && decode_descriptor_spec(j) is Some),
        r matches Ok(d) ==> (json_of(text@) matches Some(j) && decode_descriptor_spec(j) == Some(
            descriptor_view(d),
        )),
        r matches Err(e) ==> e is Parse,
{
    let v = document(text)?;
    decode_version_descriptor(&v)
}

/// Reads an asset index document.
pub fn parse_asset_index(text: &str) -> (r: Result<Vec<AssetObject>, InstallError>)
    ensures
        r is Ok <==> (json_of(text@) matches Some(j) && decode_assets_spec(j) is Some),
        r matches Ok(x) ==> (json_of(text@) matches Some(j) && decode_assets_spec(j) == Some(
            x@.map_values(|o: AssetObject| asset_view(o)),
        )),
        r matches Err(e) ==> e is Parse,
{
    let v = document(text)?;
    decode_asset_index(&v)
}

} // verus!
