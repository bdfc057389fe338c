//! Reading JSON text into the library's own tree of values.

use crate::error::Error;
use crate::json::{Json, JsonView, Number};
use serde_json::Error as JsonError;
use serde_json::Value;
use vstd::prelude::*;

verus! {

/// A JSON value as `serde_json` holds it.
#[verifier::external_type_specification]
#[verifier::external_body]
pub struct ExValue(Value);

/// How deep arrays and objects may lie in one another in a text that is
/// read.
pub const MAX_JSON_DEPTH: usize = 256;

/// The value that `serde_json::from_str` reads from `text`; `None` where it
/// reports an error.
pub uninterp spec fn parsed(text: Seq<char>) -> Option<JsonView>;

/// What a value of `serde_json` holds: its variant, and below an array or an
/// object what its elements or members hold, the members in the order in
/// which the map hands them out. A number that `Number::as_i64` gives as an
/// integer is that integer, any other is the text that `Number` writes.
pub uninterp spec fn tree_of(value: Value) -> JsonView;

/// One level of a value of `serde_json`: what kind of value it is, with its
/// elements or members still as `serde_json` holds them.
enum Level<'a> {
    Null,
    Bool(bool),
    /// What `Number::as_i64` gives, and the text that the number writes.
    Number(Option<i64>, String),
    String(String),
    Array(Vec<&'a Value>),
    Object(Vec<(String, &'a Value)>),
}

/// A number as the library holds it: the integer if there is one, else the
/// text.
spec fn number_of(integer: Option<i64>, text: String) -> Number {
    match integer {
        Some(integer) => Number::Int(integer),
        None => Number::Real(text),
    }
}

/// What a level stands for.
spec fn level_tree(level: Level) -> JsonView {
    match level {
        Level::Null => JsonView::Null,
        Level::Bool(flag) => JsonView::Bool(flag),
        Level::Number(integer, text) => JsonView::Number(number_of(integer, text)@),
        Level::String(text) => JsonView::String(text@),
        Level::Array(items) => JsonView::Array(
            Seq::new(items@.len(), |i: int| tree_of(*items@[i])),
        ),
        Level::Object(members) => JsonView::Object(
            Seq::new(members@.len(), |i: int| (members@[i].0@, tree_of(*members@[i].1))),
        ),
    }
}

/// Parses `text` with `serde_json::from_str`.
#[verifier::external_body]
fn parse_value(text: &str) -> (r: Result<Value, JsonError>)
    ensures
        match r {
            Ok(value) => parsed(text@) == Some(tree_of(value)),
            Err(_) => parsed(text@) is None,
        },
{
    serde_json::from_str(text)
}

/// Tells the variants of `serde_json::Value` apart and hands out what the
/// value holds at its top level.
#[verifier::external_body]
fn level_of<'a>(value: &'a Value) -> (r: Level<'a>)
    ensures
        level_tree(r) == tree_of(*value),
{
    match value {
        Value::Null => Level::Null,
        Value::Bool(flag) => Level::Bool(*flag),
        Value::Number(number) => Level::Number(number.as_i64(), number.to_string()),
        Value::String(text) => Level::String(text.clone()),
        Value::Array(items) => Level::Array(items.iter().collect()),
        Value::Object(members) => Level::Object(
            members.iter().map(|(key, member)| (key.clone(), member)).collect(),
        ),
    }
}

/// Whether arrays and objects lie at most `depth` deep in one another in
/// `tree`.
pub open spec fn fits(tree: JsonView, depth: nat) -> bool
    decreases depth,
{
    match tree {
        JsonView::Array(items) => depth > 0 && forall|i: int|
            0 <= i < items.len() ==> fits(#[trigger] items[i], (depth - 1) as nat),
        JsonView::Object(members) => depth > 0 && forall|i: int|
            0 <= i < members.len() ==> fits((#[trigger] members[i]).1, (depth - 1) as nat),
        _ => true,
    }
}

/// Builds the tree of a value of `serde_json`, unless arrays and objects lie
/// more than `depth` deep in one another in it.
#[verifier::loop_isolation(false)]
fn convert(value: &Value, depth: usize) -> (r: Option<Json>)
    ensures
        match r {
            Some(json) => json@ == tree_of(*value) && fits(tree_of(*value), depth as nat),
            None => !fits(tree_of(*value), depth as nat),
        },
    decreases depth,
{
    match level_of(value) {
        Level::Null => Some(Json::Null),
        Level::Bool(flag) => Some(Json::Bool(flag)),
        Level::Number(integer, text) => Some(
            Json::Number(
                match integer {
                    Some(integer) => Number::Int(integer),
                    None => Number::Real(text),
                },
            ),
        ),
        Level::String(text) => Some(Json::String(text)),
        Level::Array(items) => {
            if depth == 0 {
                return None;
            }
            let ghost trees = tree_of(*value)->Array_0;
            let mut out: Vec<Json> = Vec::new();
            let mut i: usize = 0;
            while i < items.len()
                invariant
                    i <= items.len(),
                    out.len() == i,
                    forall|k: int|
                        0 <= k < i ==> (#[trigger] out@[k])@ == trees[k] && fits(
                            trees[k],
                            (depth - 1) as nat,
                        ),
                decreases items.len() - i,
            {
                match convert(items[i], depth - 1) {
                    Some(json) => {
                        out.push(json);
                    },
                    None => {
                        assert(!fits(trees[i as int], (depth - 1) as nat));
                        return None;
                    },
                }
                i += 1;
            }
            let json = Json::Array(out);
            assert(json@->Array_0 =~= trees);
            Some(json)
        },
        Level::Object(members) => {
            if depth == 0 {
                return None;
            }
            let ghost trees = tree_of(*value)->Object_0;
            let mut out: Vec<(String, Json)> = Vec::new();
            let mut i: usize = 0;
            while i < members.len()
                invariant
                    i <= members.len(),
                    out.len() == i,
                    forall|k: int|
                        0 <= k < i ==> (#[trigger] out@[k]).0@ == trees[k].0 && out@[k].1@
                            == trees[k].1 && fits(trees[k].1, (depth - 1) as nat),
                decreases members.len() - i,
            {
                match convert(members[i].1, depth - 1) {
                    Some(json) => {
                        out.push((members[i].0.clone(), json));
                    },
                    None => {
                        assert(!fits(trees[i as int].1, (depth - 1) as nat));
                        return None;
                    },
                }
                i += 1;
            }
            let json = Json::Object(out);
            assert(json@->Object_0 =~= trees);
            Some(json)
        },
    }
}

impl Json {
    /// Reads JSON text. Text that is no JSON is refused with `Error::Serde`;
    /// text in which arrays and objects lie more than `MAX_JSON_DEPTH` deep
    /// in one another is refused with `Error::Parse`.
    pub fn parse(text: &str) -> (r: Result<Json, Error>)
        ensures
            match parsed(text@) {
                Some(tree) => if fits(tree, MAX_JSON_DEPTH as nat) {
                    r matches Ok(json) && json@ == tree
                } else {
                    r matches Err(Error::Parse(_))
                },
                None => r matches Err(Error::Serde(_)),
            },
    {
        match parse_value(text) {
            Ok(value) => match convert(&value, MAX_JSON_DEPTH) {
                Some(json) => Ok(json),
                None => Err(Error::Parse("the document is nested too deeply".to_string())),
            },
            Err(e) => Err(Error::Serde(e)),
        }
    }
}

} // verus!
