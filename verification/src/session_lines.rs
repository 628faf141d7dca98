//! What the lines of a record file say: each line is a JSON document, of
//! which the fields that matter are read with the types they must have (a
//! line whose fields have other types is passed over), and folded into a
//! title, a working directory and the latest activity.
use crate::json::{get_spec, json_get, parse_json, JsonValue, JsonView, json_document};
use crate::session_records::{
    compact, compact_whitespace, is_human_prompt, machine_prefix, note_timestamp, note_user_title,
    truncate_chars, truncated, with_timestamp, with_user_title, ParsedSession, TITLE_LIMIT,
};
use crate::text::{opt_view, push_char, push_str, str_eq, trim, trim_string, views};
use vstd::prelude::*;
use vstd::string::StringSliceAdditionalSpecFns;

verus! {

/// A string field of an object as an optional typed field reads it: absent
/// or `null` is nothing, a string is itself, anything else (or a value that
/// is not an object) does not read.
pub open spec fn str_field(v: JsonView, key: Seq<char>) -> Option<Option<Seq<char>>> {
    match v {
        JsonView::Object(_, _) => match get_spec(v, key) {
            None => Some(None),
            Some(JsonView::Null) => Some(None),
            Some(JsonView::Str(s)) => Some(Some(s)),
            Some(_) => None,
        },
        _ => None,
    }
}

/// A boolean field read the same way.
pub open spec fn bool_field(v: JsonView, key: Seq<char>) -> Option<Option<bool>> {
    match v {
        JsonView::Object(_, _) => match get_spec(v, key) {
            None => Some(None),
            Some(JsonView::Null) => Some(None),
            Some(JsonView::Bool(b)) => Some(Some(b)),
            Some(_) => None,
        },
        _ => None,
    }
}

/// A field kept as it is: absent or `null` is nothing.
pub open spec fn raw_field(v: JsonView, key: Seq<char>) -> Option<Option<JsonView>> {
    match v {
        JsonView::Object(_, _) => match get_spec(v, key) {
            None => Some(None),
            Some(JsonView::Null) => Some(None),
            Some(x) => Some(Some(x)),
        },
        _ => None,
    }
}

/// Reads an optional string field.
fn read_str_field(v: &JsonValue, key: &str) -> (r: Option<Option<String>>)
    ensures
        match r {
            None => str_field(v.view(), key@) is None,
            Some(x) => str_field(v.view(), key@) == Some(opt_view(x)),
        },
{
    match v {
        JsonValue::Object(_, _) => match json_get(v, key) {
            None => Some(None),
            Some(JsonValue::Null) => Some(None),
            Some(JsonValue::Str(s)) => Some(Some(s.clone())),
            Some(_) => None,
        },
        _ => None,
    }
}

/// Reads an optional boolean field.
fn read_bool_field(v: &JsonValue, key: &str) -> (r: Option<Option<bool>>)
    ensures
        r == bool_field(v.view(), key@),
{
    match v {
        JsonValue::Object(_, _) => match json_get(v, key) {
            None => Some(None),
            Some(JsonValue::Null) => Some(None),
            Some(JsonValue::Bool(b)) => Some(Some(*b)),
            Some(_) => None,
        },
        _ => None,
    }
}

/// Reads an optional field of any type.
fn read_raw_field<'a>(v: &'a JsonValue, key: &str) -> (r: Option<Option<&'a JsonValue>>)
    ensures
        match r {
            None => raw_field(v.view(), key@) is None,
            Some(None) => raw_field(v.view(), key@) == Some(None::<JsonView>),
            Some(Some(x)) => raw_field(v.view(), key@) == Some(Some(x.view())),
        },
{
    match v {
        JsonValue::Object(_, _) => match json_get(v, key) {
            None => Some(None),
            Some(JsonValue::Null) => Some(None),
            Some(x) => Some(Some(x)),
        },
        _ => None,
    }
}

/// What is known of a record file so far: title, working directory and
/// latest activity.
pub open spec fn parsed_view(p: ParsedSession) -> (Option<Seq<char>>, Option<Seq<char>>, Option<i64>) {
    (opt_view(p.title), opt_view(p.working_directory), p.last_activity_ms)
}

pub open spec fn bytes_of(s: Option<Seq<char>>) -> Option<Seq<u8>> {
    match s {
        Some(t) => Some(vstd::utf8::encode_utf8(t)),
        None => None,
    }
}

/// The working directory after one is offered: the first non-empty one.
pub open spec fn with_directory(current: Option<Seq<char>>, cwd: Option<Seq<char>>) -> Option<Seq<char>> {
    match current {
        Some(c) => Some(c),
        None => match cwd {
            Some(d) => if d.len() > 0 {
                Some(d)
            } else {
                None
            },
            None => None,
        },
    }
}

/// The title after a user message is offered (see `with_user_title`).
pub open spec fn titled(title: Option<Seq<char>>, text: Option<Seq<char>>) -> Option<Seq<char>> {
    match title {
        Some(t) => Some(t),
        None => match text {
            None => None,
            Some(x) => {
                let c = compact(x);
                if c.len() == 0 || crate::text::starts_with(c, "<environment_context"@)
                    || crate::text::starts_with(c, "<skill>"@) {
                    None
                } else {
                    Some(truncated(c, 140))
                }
            },
        },
    }
}

/// The text items of a list, joined by new lines; nothing when there are
/// none, or when the list is not a list of objects whose `text` is a string
/// or absent.
pub open spec fn item_texts(items: Seq<JsonView>, only_text_kind: bool) -> Option<Seq<Seq<char>>>
    decreases items.len(),
{
    if items.len() == 0 {
        Some(seq![])
    } else {
        match item_texts(items.drop_last(), only_text_kind) {
            None => None,
            Some(prior) => {
                let item = items.last();
                let kind = if only_text_kind {
                    str_field(item, "type"@)
                } else {
                    Some(None)
                };
                match (str_field(item, "text"@), kind) {
                    (Some(t), Some(k)) => {
                        let keep = !only_text_kind || k == Some("text"@);
                        match t {
                            Some(s) => if keep {
                                Some(prior.push(s))
                            } else {
                                Some(prior)
                            },
                            None => Some(prior),
                        }
                    },
                    _ => None,
                }
            },
        }
    }
}

pub open spec fn joined_texts(parts: Option<Seq<Seq<char>>>) -> Option<Seq<char>> {
    match parts {
        Some(p) => if p.len() == 0 {
            None
        } else {
            Some(crate::text::joined(p, seq!['\n']))
        },
        None => None,
    }
}

/// The text a user message of a Codex record holds: a `message` of role
/// `user` whose `content` lists items, their texts joined by new lines.
pub open spec fn codex_user_text(payload: JsonView) -> Option<Seq<char>> {
    match (str_field(payload, "type"@), str_field(payload, "role"@), raw_field(payload, "content"@)) {
        (Some(kind), Some(role), Some(content)) => if kind == Some("message"@) && role == Some("user"@) {
            match content {
                Some(JsonView::Array(items, _)) => joined_texts(item_texts(items, false)),
                _ => None,
            }
        } else {
            None
        },
        _ => None,
    }
}

/// What one parsed line of a Codex record adds (see `codex_line`).
pub open spec fn codex_record(p: (Option<Seq<char>>, Option<Seq<char>>, Option<i64>), v: JsonView) -> (
    Option<Seq<char>>,
    Option<Seq<char>>,
    Option<i64>,
) {
    match (str_field(v, "timestamp"@), str_field(v, "type"@), raw_field(v, "payload"@)) {
        (Some(ts), Some(kind), Some(payload)) => {
            let q = (p.0, p.1, with_timestamp(p.2, bytes_of(ts)));
            match (kind, payload) {
                (Some(k), Some(pl)) => if k == "session_meta"@ {
                    match (str_field(pl, "timestamp"@), str_field(pl, "cwd"@)) {
                        (Some(mts), Some(cwd)) => (
                            q.0,
                            with_directory(q.1, cwd),
                            with_timestamp(q.2, bytes_of(mts)),
                        ),
                        _ => q,
                    }
                } else if k == "response_item"@ {
                    match (str_field(pl, "type"@), str_field(pl, "role"@), raw_field(pl, "content"@)) {
                        (Some(_), Some(_), Some(_)) => (titled(q.0, codex_user_text(pl)), q.1, q.2),
                        _ => q,
                    }
                } else if k == "event_msg"@ {
                    match (str_field(pl, "type"@), str_field(pl, "message"@)) {
                        (Some(et), Some(msg)) => if et == Some("user_message"@) {
                            (titled(q.0, msg), q.1, q.2)
                        } else {
                            q
                        },
                        _ => q,
                    }
                } else {
                    q
                },
                _ => q,
            }
        },
        _ => p,
    }
}

/// What one line of a Codex record adds: its timestamp; for `session_meta`
/// the payload's timestamp and working directory; for a user message
/// (`response_item` or a `user_message` event) the title.
pub open spec fn codex_line(p: (Option<Seq<char>>, Option<Seq<char>>, Option<i64>), line: Seq<char>) -> (
    Option<Seq<char>>,
    Option<Seq<char>>,
    Option<i64>,
) {
    let t = trim(line);
    if t.len() == 0 {
        p
    } else {
        match json_document(t) {
            None => p,
            Some(v) => codex_record(p, v),
        }
    }
}

pub open spec fn codex_lines(p: (Option<Seq<char>>, Option<Seq<char>>, Option<i64>), lines: Seq<Seq<char>>) -> (
    Option<Seq<char>>,
    Option<Seq<char>>,
    Option<i64>,
)
    decreases lines.len(),
{
    if lines.len() == 0 {
        p
    } else {
        codex_line(codex_lines(p, lines.drop_last()), lines.last())
    }
}

/// The texts of the items of a list, joined by new lines.
fn items_text(items: &Vec<JsonValue>, only_text_kind: bool) -> (r: Option<String>)
    ensures
        opt_view(r) == joined_texts(item_texts(crate::json::items_view(items@), only_text_kind)),
{
    let ghost iv = crate::json::items_view(items@);
    proof {
        crate::json::lemma_items_view(items@);
    }
    let mut parts: Vec<String> = Vec::new();
    let mut i: usize = 0;
    assert(iv.subrange(0, 0) =~= Seq::<JsonView>::empty());
    while i < items.len()
        invariant
            i <= items@.len(),
            iv == crate::json::items_view(items@),
            iv.len() == items@.len(),
            forall|j: int| 0 <= j < items@.len() ==> #[trigger] iv[j] == items@[j].view(),
            item_texts(iv.subrange(0, i as int), only_text_kind) == Some(views(parts@)),
        decreases items@.len() - i,
    {
        let ghost next = iv.subrange(0, i + 1);
        assert(next.drop_last() =~= iv.subrange(0, i as int));
        assert(next.last() == items@[i as int].view());
        let text = match read_str_field(&items[i], "text") {
            Some(t) => t,
            None => {
                proof {
                    lemma_item_texts_stuck(iv, i as int + 1, only_text_kind);
                }
                return None;
            },
        };
        let kind = if only_text_kind {
            match read_str_field(&items[i], "type") {
                Some(k) => k,
                None => {
                    proof {
                        lemma_item_texts_stuck(iv, i as int + 1, only_text_kind);
                    }
                    return None;
                },
            }
        } else {
            None
        };
        proof {
            reveal_strlit("text");
        }
        let keep = !only_text_kind || match &kind {
            Some(k) => str_eq(k.as_str(), "text"),
            None => false,
        };
        match text {
            Some(s) => if keep {
                let ghost before = views(parts@);
                parts.push(s);
                assert(views(parts@) =~= before.push(parts@.last()@));
            },
            None => {},
        }
        i = i + 1;
    }
    assert(iv.subrange(0, iv.len() as int) =~= iv);
    if parts.len() == 0 {
        None
    } else {
        Some(join_lines(&parts))
    }
}

/// Once the items stop reading, no longer list reads either.
pub proof fn lemma_item_texts_stuck(items: Seq<JsonView>, k: int, only_text_kind: bool)
    requires
        0 < k <= items.len(),
        item_texts(items.subrange(0, k), only_text_kind) is None,
    ensures
        item_texts(items, only_text_kind) is None,
    decreases items.len() - k,
{
    if k < items.len() {
        assert(items.subrange(0, k + 1).drop_last() =~= items.subrange(0, k));
        lemma_item_texts_stuck(items, k + 1, only_text_kind);
    } else {
        assert(items.subrange(0, k) =~= items);
    }
}

/// Texts joined by new lines.
fn join_lines(parts: &Vec<String>) -> (r: String)
    ensures
        r@ == crate::text::joined(views(parts@), seq!['\n']),
{
    let mut r = String::new();
    let mut i: usize = 0;
    assert(views(parts@).subrange(0, 0) =~= Seq::<Seq<char>>::empty());
    while i < parts.len()
        invariant
            i <= parts@.len(),
            r@ == crate::text::joined(views(parts@).subrange(0, i as int), seq!['\n']),
        decreases parts@.len() - i,
    {
        let ghost next = views(parts@).subrange(0, i + 1);
        assert(next.drop_last() =~= views(parts@).subrange(0, i as int));
        assert(next.last() == parts@[i as int]@);
        if i > 0 {
            push_char(&mut r, '\n');
        } else {
            assert(next =~= seq![parts@[0]@]);
        }
        push_str(&mut r, parts[i].as_str());
        i = i + 1;
    }
    assert(views(parts@).subrange(0, parts@.len() as int) =~= views(parts@));
    r
}

/// The text of a user message of a Codex record.
pub fn user_text_from_message(payload: &JsonValue) -> (r: Option<String>)
    ensures
        opt_view(r) == codex_user_text(payload.view()),
{
    let kind = match read_str_field(payload, "type") {
        Some(k) => k,
        None => return None,
    };
    let role = match read_str_field(payload, "role") {
        Some(k) => k,
        None => return None,
    };
    let content = match read_raw_field(payload, "content") {
        Some(c) => c,
        None => return None,
    };
    proof {
        reveal_strlit("message");
        reveal_strlit("user");
    }
    let is_message = match &kind {
        Some(k) => str_eq(k.as_str(), "message"),
        None => false,
    };
    let is_user = match &role {
        Some(k) => str_eq(k.as_str(), "user"),
        None => false,
    };
    if !is_message || !is_user {
        return None;
    }
    match content {
        Some(JsonValue::Array(items, _)) => items_text(items, false),
        _ => None,
    }
}

/// Takes a timestamp field into account.
fn note_timestamp_field(parsed: &mut ParsedSession, ts: &Option<String>)
    ensures
        parsed_view(*final(parsed)) == (parsed_view(*old(parsed)).0, parsed_view(*old(parsed)).1, with_timestamp(
            old(parsed).last_activity_ms,
            bytes_of(opt_view(*ts)),
        )),
{
    match ts {
        Some(t) => note_timestamp(parsed, Some(t.as_str())),
        None => note_timestamp(parsed, None),
    }
}

/// Takes one parsed line of a Codex record into account.
pub fn note_codex_record(parsed: &mut ParsedSession, v: &JsonValue)
    ensures
        parsed_view(*final(parsed)) == codex_record(parsed_view(*old(parsed)), v.view()),
{
    let ts = match read_str_field(v, "timestamp") {
        Some(x) => x,
        None => return,
    };
    let kind = match read_str_field(v, "type") {
        Some(x) => x,
        None => return,
    };
    let payload = match read_raw_field(v, "payload") {
        Some(x) => x,
        None => return,
    };
    note_timestamp_field(parsed, &ts);
    let k = match &kind {
        Some(k) => k,
        None => return,
    };
    let pl = match payload {
        Some(pl) => pl,
        None => return,
    };
    proof {
        reveal_strlit("session_meta");
        reveal_strlit("response_item");
        reveal_strlit("event_msg");
        reveal_strlit("user_message");
    }
    if str_eq(k.as_str(), "session_meta") {
        let mts = match read_str_field(pl, "timestamp") {
            Some(x) => x,
            None => return,
        };
        let cwd = match read_str_field(pl, "cwd") {
            Some(x) => x,
            None => return,
        };
        if parsed.working_directory.is_none() {
            match cwd {
                Some(d) => if !d.as_str().is_empty() {
                    parsed.working_directory = Some(d);
                },
                None => {},
            }
        }
        note_timestamp_field(parsed, &mts);
    } else if str_eq(k.as_str(), "response_item") {
        match (read_str_field(pl, "type"), read_str_field(pl, "role"), read_raw_field(pl, "content")) {
            (Some(_), Some(_), Some(_)) => {
                let text = user_text_from_message(pl);
                note_user_title(parsed, text);
            },
            _ => {},
        }
    } else if str_eq(k.as_str(), "event_msg") {
        let et = match read_str_field(pl, "type") {
            Some(x) => x,
            None => return,
        };
        let msg = match read_str_field(pl, "message") {
            Some(x) => x,
            None => return,
        };
        let is_user = match &et {
            Some(e) => str_eq(e.as_str(), "user_message"),
            None => false,
        };
        if is_user {
            note_user_title(parsed, msg);
        }
    }
}

/// Takes one line of a Codex record into account.
pub fn note_codex_line(parsed: &mut ParsedSession, line: &str)
    ensures
        parsed_view(*final(parsed)) == codex_line(parsed_view(*old(parsed)), line@),
{
    let t = trim_string(line);
    if t.as_str().is_empty() {
        return;
    }
    let v = match parse_json(t.as_str()) {
        Ok(v) => v,
        Err(_) => return,
    };
    note_codex_record(parsed, &v);
}

/// What the lines of a Codex record say.
pub fn parse_session_lines(lines: &Vec<String>) -> (r: ParsedSession)
    ensures
        parsed_view(r) == codex_lines((None, None, None), views(lines@)),
{
    let mut parsed = ParsedSession { title: None, working_directory: None, last_activity_ms: None };
    let mut i: usize = 0;
    assert(views(lines@).subrange(0, 0) =~= Seq::<Seq<char>>::empty());
    while i < lines.len()
        invariant
            i <= lines@.len(),
            parsed_view(parsed) == codex_lines((None, None, None), views(lines@).subrange(0, i as int)),
        decreases lines@.len() - i,
    {
        let ghost next = views(lines@).subrange(0, i + 1);
        assert(next.drop_last() =~= views(lines@).subrange(0, i as int));
        assert(next.last() == lines@[i as int]@);
        note_codex_line(&mut parsed, lines[i].as_str());
        i = i + 1;
    }
    assert(views(lines@).subrange(0, lines@.len() as int) =~= views(lines@));
    parsed
}

/// The text of a message in the projects format: its `content` when a string, else the
/// texts of its items of type `text`, joined by new lines.
pub open spec fn claude_message_spec(message: JsonView) -> Option<Seq<char>> {
    match raw_field(message, "content"@) {
        Some(Some(JsonView::Str(s))) => Some(s),
        Some(Some(JsonView::Array(items, _))) => joined_texts(item_texts(items, true)),
        _ => None,
    }
}

/// The text of a message in the projects format.
pub fn claude_message_text(message: &JsonValue) -> (r: Option<String>)
    ensures
        opt_view(r) == claude_message_spec(message.view()),
{
    match read_raw_field(message, "content") {
        Some(Some(JsonValue::Str(s))) => Some(s.clone()),
        Some(Some(JsonValue::Array(items, _))) => items_text(items, true),
        _ => None,
    }
}

/// What is known while reading a record in the projects format: the file's facts so far,
/// the latest AI title and the first human prompt's title.
pub struct ClaudeReading {
    pub parsed: ParsedSession,
    pub ai_title: Option<String>,
    pub user_title: Option<String>,
}

pub open spec fn reading_view(r: ClaudeReading) -> (
    (Option<Seq<char>>, Option<Seq<char>>, Option<i64>),
    Option<Seq<char>>,
    Option<Seq<char>>,
) {
    (parsed_view(r.parsed), opt_view(r.ai_title), opt_view(r.user_title))
}

pub open spec fn claude_line_fields(v: JsonView) -> bool {
    &&& str_field(v, "type"@) is Some
    &&& str_field(v, "timestamp"@) is Some
    &&& str_field(v, "cwd"@) is Some
    &&& bool_field(v, "isSidechain"@) is Some
    &&& str_field(v, "aiTitle"@) is Some
    &&& raw_field(v, "message"@) is Some
}

/// What one parsed line of a record in the projects format adds (see
/// `claude_line`).
pub open spec fn claude_record(
    s: ((Option<Seq<char>>, Option<Seq<char>>, Option<i64>), Option<Seq<char>>, Option<Seq<char>>),
    v: JsonView,
) -> ((Option<Seq<char>>, Option<Seq<char>>, Option<i64>), Option<Seq<char>>, Option<Seq<char>>) {
    if !claude_line_fields(v) {
        s
    } else {
        let kind = str_field(v, "type"@).unwrap();
        let p = (
            s.0.0,
            with_directory(s.0.1, str_field(v, "cwd"@).unwrap()),
            with_timestamp(s.0.2, bytes_of(str_field(v, "timestamp"@).unwrap())),
        );
        if kind == Some("ai-title"@) {
            match str_field(v, "aiTitle"@).unwrap() {
                Some(title) => if trim(title).len() > 0 {
                    (p, Some(truncated(compact(title), 140)), s.2)
                } else {
                    (p, s.1, s.2)
                },
                None => (p, s.1, s.2),
            }
        } else if kind == Some("user"@) {
            if bool_field(v, "isSidechain"@).unwrap() == Some(true) {
                (p, s.1, s.2)
            } else {
                match raw_field(v, "message"@).unwrap() {
                    None => (p, s.1, s.2),
                    Some(m) => match claude_message_spec(m) {
                        None => (p, s.1, s.2),
                        Some(text) => if !(trim(text).len() > 0 && !machine_prefix(trim(text)))
                            || s.2 is Some {
                            (p, s.1, s.2)
                        } else if compact(text).len() > 0 {
                            (p, s.1, Some(truncated(compact(text), 140)))
                        } else {
                            (p, s.1, s.2)
                        },
                    },
                }
            }
        } else {
            (p, s.1, s.2)
        }
    }
}

/// What one line of a record in the projects format adds: its timestamp and working
/// directory; an `ai-title` line's title (the latest wins); the first human
/// prompt of a `user` line outside side chains.
pub open spec fn claude_line(
    s: ((Option<Seq<char>>, Option<Seq<char>>, Option<i64>), Option<Seq<char>>, Option<Seq<char>>),
    line: Seq<char>,
) -> ((Option<Seq<char>>, Option<Seq<char>>, Option<i64>), Option<Seq<char>>, Option<Seq<char>>) {
    let t = trim(line);
    if t.len() == 0 {
        s
    } else {
        match json_document(t) {
            None => s,
            Some(v) => claude_record(s, v),
        }
    }
}

pub open spec fn claude_lines(
    s: ((Option<Seq<char>>, Option<Seq<char>>, Option<i64>), Option<Seq<char>>, Option<Seq<char>>),
    lines: Seq<Seq<char>>,
) -> ((Option<Seq<char>>, Option<Seq<char>>, Option<i64>), Option<Seq<char>>, Option<Seq<char>>)
    decreases lines.len(),
{
    if lines.len() == 0 {
        s
    } else {
        claude_line(claude_lines(s, lines.drop_last()), lines.last())
    }
}

/// Takes one parsed line of a record in the projects format into account.
pub fn note_claude_record(reading: &mut ClaudeReading, v: &JsonValue)
    requires
        old(reading).parsed.title is None,
    ensures
        reading_view(*final(reading)) == claude_record(reading_view(*old(reading)), v.view()),
        final(reading).parsed.title is None,
{
    let kind = match read_str_field(v, "type") {
        Some(x) => x,
        None => return,
    };
    let ts = match read_str_field(v, "timestamp") {
        Some(x) => x,
        None => return,
    };
    let cwd = match read_str_field(v, "cwd") {
        Some(x) => x,
        None => return,
    };
    let sidechain = match read_bool_field(v, "isSidechain") {
        Some(x) => x,
        None => return,
    };
    let ai = match read_str_field(v, "aiTitle") {
        Some(x) => x,
        None => return,
    };
    let message = match read_raw_field(v, "message") {
        Some(x) => x,
        None => return,
    };
    note_timestamp_field(&mut reading.parsed, &ts);
    if reading.parsed.working_directory.is_none() {
        match cwd {
            Some(d) => if !d.as_str().is_empty() {
                reading.parsed.working_directory = Some(d);
            },
            None => {},
        }
    }
    proof {
        reveal_strlit("ai-title");
        reveal_strlit("user");
    }
    let k = match &kind {
        Some(k) => k.as_str(),
        None => return,
    };
    if str_eq(k, "ai-title") {
        match ai {
            Some(title) => {
                let trimmed = trim_string(title.as_str());
                if !trimmed.as_str().is_empty() {
                    let c = compact_whitespace(title.as_str());
                    reading.ai_title = Some(truncate_chars(c.as_str(), TITLE_LIMIT));
                }
            },
            None => {},
        }
    } else if str_eq(k, "user") {
        if sidechain == Some(true) {
            return;
        }
        let text = match message {
            Some(m) => match claude_message_text(m) {
                Some(text) => text,
                None => return,
            },
            None => return,
        };
        if !is_human_prompt(text.as_str()) || reading.user_title.is_some() {
            return;
        }
        let c = compact_whitespace(text.as_str());
        if !c.as_str().is_empty() {
            reading.user_title = Some(truncate_chars(c.as_str(), TITLE_LIMIT));
        }
    }
}

/// Takes one line of a record in the projects format into account.
pub fn note_claude_line(reading: &mut ClaudeReading, line: &str)
    requires
        old(reading).parsed.title is None,
    ensures
        reading_view(*final(reading)) == claude_line(reading_view(*old(reading)), line@),
        final(reading).parsed.title is None,
{
    let t = trim_string(line);
    if t.as_str().is_empty() {
        return;
    }
    let v = match parse_json(t.as_str()) {
        Ok(v) => v,
        Err(_) => return,
    };
    note_claude_record(reading, &v);
}

/// What the lines of a record in the projects format say: the title is the latest AI title,
/// else the first human prompt.
pub fn parse_claude_lines(lines: &Vec<String>) -> (r: ParsedSession)
    ensures
        ({
            let s = claude_lines(((None, None, None), None, None), views(lines@));
            parsed_view(r) == (if s.1 is Some { s.1 } else { s.2 }, s.0.1, s.0.2)
        }),
{
    let mut reading = ClaudeReading {
        parsed: ParsedSession { title: None, working_directory: None, last_activity_ms: None },
        ai_title: None,
        user_title: None,
    };
    let mut i: usize = 0;
    assert(views(lines@).subrange(0, 0) =~= Seq::<Seq<char>>::empty());
    while i < lines.len()
        invariant
            i <= lines@.len(),
            reading.parsed.title is None,
            reading_view(reading) == claude_lines(((None, None, None), None, None), views(lines@).subrange(0, i as int)),
        decreases lines@.len() - i,
    {
        let ghost next = views(lines@).subrange(0, i + 1);
        assert(next.drop_last() =~= views(lines@).subrange(0, i as int));
        assert(next.last() == lines@[i as int]@);
        note_claude_line(&mut reading, lines[i].as_str());
        i = i + 1;
    }
    assert(views(lines@).subrange(0, lines@.len() as int) =~= views(lines@));
    let mut parsed = reading.parsed;
    parsed.title = match reading.ai_title {
        Some(t) => Some(t),
        None => reading.user_title,
    };
    parsed
}

} // verus!
