//! JSON documents as the parsers read them. `serde_json` parses the text; the
//! library walks the result as a `JsonValue` of its own.
use crate::text::owned;
use vstd::prelude::*;

verus! {

/// A JSON value. Arrays and objects carry the compact text that
/// `serde_json` renders for them; numbers carry their own text.
#[derive(Debug)]
pub enum JsonValue {
    Null,
    Bool(bool),
    Number(String),
    Str(String),
    Array(Vec<JsonValue>, String),
    Object(Vec<(String, JsonValue)>, String),
}

/// The text `serde_json` renders for each kind of value, and how they compare.
pub enum JsonView {
    Null,
    Bool(bool),
    Number(Seq<char>),
    Str(Seq<char>),
    Array(Seq<JsonView>, Seq<char>),
    Object(Seq<(Seq<char>, JsonView)>, Seq<char>),
}

impl JsonValue {
    pub open spec fn view(&self) -> JsonView
        decreases self,
    {
        match self {
            JsonValue::Null => JsonView::Null,
            JsonValue::Bool(b) => JsonView::Bool(*b),
            JsonValue::Number(n) => JsonView::Number(n@),
            JsonValue::Str(s) => JsonView::Str(s@),
            JsonValue::Array(items, text) => JsonView::Array(items_view(items@), text@),
            JsonValue::Object(members, text) => JsonView::Object(members_view(members@), text@),
        }
    }
}

pub open spec fn items_view(s: Seq<JsonValue>) -> Seq<JsonView>
    decreases s,
{
    if s.len() == 0 {
        seq![]
    } else {
        seq![s[0].view()] + items_view(s.drop_first())
    }
}

pub open spec fn members_view(s: Seq<(String, JsonValue)>) -> Seq<(Seq<char>, JsonView)>
    decreases s,
{
    if s.len() == 0 {
        seq![]
    } else {
        seq![(s[0].0@, s[0].1.view())] + members_view(s.drop_first())
    }
}

pub proof fn lemma_items_view(s: Seq<JsonValue>)
    ensures
        items_view(s).len() == s.len(),
        forall|i: int| 0 <= i < s.len() ==> #[trigger] items_view(s)[i] == s[i].view(),
    decreases s.len(),
{
    if s.len() > 0 {
        lemma_items_view(s.drop_first());
        assert forall|i: int| 0 <= i < s.len() implies #[trigger] items_view(s)[i] == s[i].view() by {
            if i > 0 {
                assert(items_view(s)[i] == items_view(s.drop_first())[i - 1]);
            }
        }
    }
}

pub proof fn lemma_members_view(s: Seq<(String, JsonValue)>)
    ensures
        members_view(s).len() == s.len(),
        forall|i: int| 0 <= i < s.len() ==> #[trigger] members_view(s)[i] == (s[i].0@, s[i].1.view()),
    decreases s.len(),
{
    if s.len() > 0 {
        lemma_members_view(s.drop_first());
        assert forall|i: int| 0 <= i < s.len() implies #[trigger] members_view(s)[i] == (s[i].0@, s[i].1.view()) by {
            if i > 0 {
                assert(members_view(s)[i] == members_view(s.drop_first())[i - 1]);
            }
        }
    }
}

/// What `serde_json::from_str::<serde_json::Value>` makes of `text`, if it
/// accepts it.
pub uninterp spec fn json_document(text: Seq<char>) -> Option<JsonView>;

/// Parses `text` with `serde_json::from_str` into a `serde_json::Value` and
/// hands the value over as a `JsonValue`. The claim: the result is `Ok`
/// exactly when serde_json accepts the text, and then it is the document
/// serde_json built; the error's text is serde_json's message, of which
/// nothing is stated.
#[verifier::external_body]
pub fn parse_json(text: &str) -> (r: Result<JsonValue, String>)
    ensures
        r is Ok <==> json_document(text@) is Some,
        r matches Ok(v) ==> json_document(text@) == Some(v.view()),
{
    match serde_json::from_str::<serde_json::Value>(text) {
        Ok(value) => Ok(JsonValue::from_serde(value)),
        Err(err) => Err(err.to_string()),
    }
}

/// `serde_json::Value`, carried through opaque.
#[verifier::external_type_specification]
#[verifier::external_body]
pub struct ExSerdeJsonValue(serde_json::Value);

impl JsonValue {
    /// The `JsonValue` that holds a `serde_json::Value`, node by node.
    #[verifier::external_body]
    fn from_serde(value: serde_json::Value) -> JsonValue {
        let text = value.to_string();
        match value {
            serde_json::Value::Null => JsonValue::Null,
            serde_json::Value::Bool(b) => JsonValue::Bool(b),
            serde_json::Value::Number(n) => JsonValue::Number(n.to_string()),
            serde_json::Value::String(s) => JsonValue::Str(s),
            serde_json::Value::Array(items) => JsonValue::Array(
                items.into_iter().map(JsonValue::from_serde).collect(),
                text,
            ),
            serde_json::Value::Object(map) => JsonValue::Object(
                map.into_iter().map(|(k, v)| (k, JsonValue::from_serde(v))).collect(),
                text,
            ),
        }
    }
}

/// The value stored under `key` in an object (`Value::get` with a key).
pub open spec fn get_spec(v: JsonView, key: Seq<char>) -> Option<JsonView> {
    match v {
        JsonView::Object(members, _) => {
            if exists|i: int| 0 <= i < members.len() && (#[trigger] members[i]).0 == key {
                Some(members[first_key_index(members, key)].1)
            } else {
                None
            }
        },
        _ => None,
    }
}

/// `Value::as_str`.
pub open spec fn as_str_spec(v: Option<JsonView>) -> Option<Seq<char>> {
    match v {
        Some(JsonView::Str(s)) => Some(s),
        _ => None,
    }
}

/// `Value::as_array`.
pub open spec fn as_array_spec(v: Option<JsonView>) -> Option<Seq<JsonView>> {
    match v {
        Some(JsonView::Array(items, _)) => Some(items),
        _ => None,
    }
}

/// The text of a value as the parsers show it: a string's own characters,
/// and for every other value the compact JSON that `Value::to_string` gives.
pub open spec fn render_spec(v: JsonView) -> Seq<char> {
    match v {
        JsonView::Null => seq!['n', 'u', 'l', 'l'],
        JsonView::Bool(b) => if b {
            seq!['t', 'r', 'u', 'e']
        } else {
            seq!['f', 'a', 'l', 's', 'e']
        },
        JsonView::Number(n) => n,
        JsonView::Str(s) => s,
        JsonView::Array(_, t) => t,
        JsonView::Object(_, t) => t,
    }
}

/// The position of the first member named `key`.
pub open spec fn is_first_key(members: Seq<(Seq<char>, JsonView)>, key: Seq<char>, i: int) -> bool {
    0 <= i < members.len() && members[i].0 == key && forall|j: int|
        0 <= j < i ==> (#[trigger] members[j]).0 != key
}

pub open spec fn first_key_index(members: Seq<(Seq<char>, JsonView)>, key: Seq<char>) -> int {
    choose|i: int| is_first_key(members, key, i)
}

proof fn lemma_first_member(members: Seq<(Seq<char>, JsonView)>, key: Seq<char>, k: int)
    requires
        0 <= k < members.len(),
        members[k].0 == key,
        forall|j: int| 0 <= j < k ==> (#[trigger] members[j]).0 != key,
    ensures
        first_key_index(members, key) == k,
{
    assert(is_first_key(members, key, k));
    let i = first_key_index(members, key);
    assert(is_first_key(members, key, i));
    if i < k {
        assert(members[i].0 != key);
    }
    if i > k {
        assert(members[k].0 != key);
    }
}

/// The value under `key` when `v` is an object that has it (`Value::get`).
pub fn json_get<'a>(v: &'a JsonValue, key: &str) -> (r: Option<&'a JsonValue>)
    ensures
        match r {
            Some(x) => get_spec(v.view(), key@) == Some(x.view()),
            None => get_spec(v.view(), key@) is None,
        },
{
    match v {
        JsonValue::Object(members, text) => {
            let ghost ms = members_view(members@);
            assert(v.view() == JsonView::Object(ms, text@));
            proof {
                lemma_members_view(members@);
            }
            let mut i: usize = 0;
            while i < members.len()
                invariant
                    i <= members.len(),
                    ms == members_view(members@),
                    v.view() == JsonView::Object(ms, text@),
                    ms.len() == members@.len(),
                    forall|j: int| 0 <= j < members@.len() ==> #[trigger] ms[j] == (members@[j].0@, members@[j].1.view()),
                    forall|j: int| 0 <= j < i ==> (#[trigger] ms[j]).0 != key@,
                decreases members.len() - i,
            {
                if crate::text::str_eq(members[i].0.as_str(), key) {
                    proof {
                        assert(ms[i as int].0 == key@);
                        lemma_first_member(ms, key@, i as int);
                        assert(exists|k: int| 0 <= k < ms.len() && (#[trigger] ms[k]).0 == key@);

                    }
                    return Some(&members[i].1);
                }
                i = i + 1;
            }
            assert(!exists|i: int| 0 <= i < ms.len() && (#[trigger] ms[i]).0 == key@);
            None
        },
        _ => None,
    }
}

/// `Value::as_str`, copied.
pub fn json_as_str(v: Option<&JsonValue>) -> (r: Option<String>)
    ensures
        crate::text::opt_view(r) == as_str_spec(
            match v {
                Some(x) => Some(x.view()),
                None => None,
            },
        ),
{
    match v {
        Some(JsonValue::Str(s)) => Some(s.clone()),
        _ => None,
    }
}

/// `value.and_then(Value::as_str).map(str::to_string)`.
pub fn json_string(value: Option<&JsonValue>) -> (r: Option<String>)
    ensures
        crate::text::opt_view(r) == as_str_spec(
            match value {
                Some(x) => Some(x.view()),
                None => None,
            },
        ),
{
    json_as_str(value)
}

/// The text of a value: a string's characters, else its compact JSON.
pub fn json_render(v: &JsonValue) -> (r: String)
    ensures
        r@ == render_spec(v.view()),
{
    match v {
        JsonValue::Null => {
            proof {
                reveal_strlit("null");
            }
            owned("null")
        },
        JsonValue::Bool(b) => if *b {
            proof {
                reveal_strlit("true");
            }
            owned("true")
        } else {
            proof {
                reveal_strlit("false");
            }
            owned("false")
        },
        JsonValue::Number(n) => n.clone(),
        JsonValue::Str(s) => s.clone(),
        JsonValue::Array(_, t) => t.clone(),
        JsonValue::Object(_, t) => t.clone(),
    }
}

} // verus!
