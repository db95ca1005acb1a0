//! Message roles and content as Chat Completions upstreams accept them:
//! structured Responses content is flattened to text, images stay
//! multimodal, and attachments a Chat API cannot take become text notes.
use vstd::prelude::*;

use crate::chat_messages::role_is;
use crate::json::{
    deep_clone, get_str_v, get_v, lemma_view_items_empty, lemma_view_items_push, object1,
    object2, set_v, view_items, Json, JsonV,
};
use crate::text::{concat2, concat3, join_seq, join_strings, str_eq, trim, trim_seq, views};

verus! {

/// The role an upstream understands for a Codex role.
pub open spec fn map_role_v(role: Seq<char>) -> Seq<char> {
    if role == "developer"@ {
        "system"@
    } else if role == "latest_reminder"@ {
        "user"@
    } else {
        role
    }
}

/// `developer` becomes `system`, `latest_reminder` becomes `user`; other
/// roles pass through.
pub fn map_role_for_upstream(role: &str) -> (r: &str)
    ensures
        r@ == map_role_v(role@),
{
    if str_eq(role, "developer") {
        "system"
    } else if str_eq(role, "latest_reminder") {
        "user"
    } else {
        role
    }
}

/// A string value's text.
pub open spec fn str_of_v(v: Option<JsonV>) -> Option<Seq<char>> {
    match v {
        Some(JsonV::Str(s)) => Some(s),
        _ => None,
    }
}

/// A text trimmed, when it is not blank.
pub open spec fn trimmed_nonblank_v(s: Option<Seq<char>>) -> Option<Seq<char>> {
    match s {
        Some(t) => if trim_seq(t).len() > 0 {
            Some(trim_seq(t))
        } else {
            None
        },
        None => None,
    }
}

fn trimmed_nonblank(s: Option<&str>) -> (r: Option<String>)
    ensures
        match trimmed_nonblank_v(
            match s {
                Some(t) => Some(t@),
                None => None,
            },
        ) {
            Some(t) => r is Some && r->0@ == t,
            None => r is None,
        },
{
    match s {
        Some(t) => {
            let x = trim(t);
            if x.as_str().is_empty() {
                None
            } else {
                Some(x)
            }
        },
        None => None,
    }
}

/// The word used for an attachment kind a Chat API cannot take.
pub open spec fn attachment_label_v(item_type: Seq<char>) -> Option<Seq<char>> {
    if item_type == "input_file"@ {
        Some("file"@)
    } else if item_type == "input_audio"@ {
        Some("audio"@)
    } else if item_type == "input_video"@ {
        Some("video"@)
    } else {
        None
    }
}

/// The first of `filename`, `file_id`, `name` that the part has.
pub open spec fn attachment_name_field_v(part: JsonV) -> Option<JsonV> {
    match get_v(part, "filename"@) {
        Some(v) => Some(v),
        None => match get_v(part, "file_id"@) {
            Some(v) => Some(v),
            None => get_v(part, "name"@),
        },
    }
}

/// The text note for an attachment: `[Attached <label>: <name> (<mime>)]`,
/// leaving out the name or MIME type when the part has none.
pub open spec fn attachment_text_v(part: JsonV, item_type: Seq<char>) -> Option<Seq<char>> {
    match attachment_label_v(item_type) {
        None => None,
        Some(label) => {
            let name = trimmed_nonblank_v(str_of_v(attachment_name_field_v(part)));
            let mime = trimmed_nonblank_v(get_str_v(part, "mime_type"@));
            Some(
                match (name, mime) {
                    (Some(n), Some(m)) => "[Attached "@ + label + ": "@ + n + " ("@ + m + ")]"@,
                    (Some(n), None) => "[Attached "@ + label + ": "@ + n + "]"@,
                    (None, Some(m)) => "[Attached "@ + label + " ("@ + m + ")]"@,
                    (None, None) => "[Attached "@ + label + "]"@,
                },
            )
        },
    }
}

/// Describes a file, audio or video part as text.
pub fn unsupported_attachment_part_to_text(part: &Json, item_type: &str) -> (r: Option<String>)
    ensures
        match attachment_text_v(part@, item_type@) {
            Some(t) => r is Some && r->0@ == t,
            None => r is None,
        },
{
    let label = if str_eq(item_type, "input_file") {
        "file"
    } else if str_eq(item_type, "input_audio") {
        "audio"
    } else if str_eq(item_type, "input_video") {
        "video"
    } else {
        return None;
    };
    let field = match part.get("filename") {
        Some(v) => Some(v),
        None => match part.get("file_id") {
            Some(v) => Some(v),
            None => part.get("name"),
        },
    };
    let name_text: Option<&str> = match field {
        Some(v) => v.as_str(),
        None => None,
    };
    let name = trimmed_nonblank(name_text);
    let mime = trimmed_nonblank(part.get_str("mime_type"));
    let head = concat2("[Attached ", label);
    let text = match (name, mime) {
        (Some(n), Some(m)) => {
            let a = concat3(head.as_str(), ": ", n.as_str());
            concat3(a.as_str(), " (", concat2(m.as_str(), ")]").as_str())
        },
        (Some(n), None) => concat3(head.as_str(), ": ", concat2(n.as_str(), "]").as_str()),
        (None, Some(m)) => concat3(head.as_str(), " (", concat2(m.as_str(), ")]").as_str()),
        (None, None) => concat2(head.as_str(), "]"),
    };
    proof {
        match (trimmed_nonblank_v(str_of_v(attachment_name_field_v(part@))), trimmed_nonblank_v(
            get_str_v(part@, "mime_type"@),
        )) {
            (Some(n), Some(m)) => {
                assert(text@ =~= "[Attached "@ + label@ + ": "@ + n + " ("@ + m + ")]"@);
            },
            (Some(n), None) => {
                assert(text@ =~= "[Attached "@ + label@ + ": "@ + n + "]"@);
            },
            (None, Some(m)) => {
                assert(text@ =~= "[Attached "@ + label@ + " ("@ + m + ")]"@);
            },
            (None, None) => {},
        }
    }
    Some(text)
}

/// The type of a content part (empty when it has none).
pub open spec fn part_type_v(part: JsonV) -> Seq<char> {
    match get_str_v(part, "type"@) {
        Some(t) => t,
        None => Seq::empty(),
    }
}

pub fn part_type(part: &Json) -> (r: &str)
    ensures
        r@ == part_type_v(part@),
{
    match part.get_str("type") {
        Some(t) => t,
        None => {
            proof {
                reveal_strlit("");
            }
            ""
        },
    }
}

/// The text of a structured content part, when it has any.
pub open spec fn part_text_v(part: JsonV) -> Option<Seq<char>> {
    let t = part_type_v(part);
    if t == "input_text"@ || t == "output_text"@ || t == "text"@ || t == "summarized_text"@ {
        get_str_v(part, "text"@)
    } else if t == "input_image"@ || t == "image"@ || t == "image_url"@ {
        None
    } else if t == "input_file"@ || t == "input_audio"@ || t == "input_video"@ {
        attachment_text_v(part, t)
    } else {
        get_str_v(part, "text"@)
    }
}

fn extract_text_from_content_part(part: &Json) -> (r: Option<String>)
    ensures
        match part_text_v(part@) {
            Some(t) => r is Some && r->0@ == t,
            None => r is None,
        },
{
    let t = part_type(part);
    if str_eq(t, "input_text") || str_eq(t, "output_text") || str_eq(t, "text") || str_eq(
        t,
        "summarized_text",
    ) {
        match part.get_str("text") {
            Some(s) => Some(s.to_string()),
            None => None,
        }
    } else if str_eq(t, "input_image") || str_eq(t, "image") || str_eq(t, "image_url") {
        None
    } else if str_eq(t, "input_file") || str_eq(t, "input_audio") || str_eq(t, "input_video") {
        unsupported_attachment_part_to_text(part, t)
    } else {
        match part.get_str("text") {
            Some(s) => Some(s.to_string()),
            None => None,
        }
    }
}

/// The text of one item of a content array: a string, or the text of a part.
pub open spec fn item_text_v(item: JsonV) -> Option<Seq<char>> {
    match item {
        JsonV::Str(s) => Some(s),
        JsonV::Object(_) => part_text_v(item),
        _ => None,
    }
}

/// The texts of the items that have one, in order.
pub open spec fn item_texts_v(items: Seq<JsonV>) -> Seq<Seq<char>>
    decreases items.len(),
{
    if items.len() == 0 {
        Seq::empty()
    } else {
        let r = item_texts_v(items.drop_last());
        match item_text_v(items.last()) {
            Some(t) => r.push(t),
            None => r,
        }
    }
}

fn item_texts(items: &Vec<Json>) -> (r: Vec<String>)
    ensures
        views(r@) == item_texts_v(view_items(items@)),
{
    let ghost iv = view_items(items@);
    let mut out: Vec<String> = Vec::new();
    let mut i: usize = 0;
    proof {
        assert(iv.take(0) =~= Seq::<JsonV>::empty());
        assert(views(out@) =~= Seq::<Seq<char>>::empty());
    }
    while i < items.len()
        invariant
            i <= items.len(),
            iv == view_items(items@),
            views(out@) == item_texts_v(iv.take(i as int)),
        decreases items.len() - i,
    {
        proof {
            assert(iv.take(i + 1).drop_last() =~= iv.take(i as int));
            assert(iv.take(i + 1).last() == iv[i as int]);
        }
        let t: Option<String> = match &items[i] {
            Json::Str(s) => Some(s.clone()),
            Json::Object(_) => extract_text_from_content_part(&items[i]),
            _ => None,
        };
        match t {
            Some(t) => {
                let ghost before = out@;
                out.push(t);
                proof {
                    assert(views(out@) =~= views(before).push(out@.last()@));
                }
            },
            None => {},
        }
        i = i + 1;
    }
    proof {
        assert(iv.take(items.len() as int) =~= iv);
    }
    out
}

/// One newline.
pub open spec fn newline() -> Seq<char> {
    seq!['\n']
}

fn newline_str() -> (r: &'static str)
    ensures
        r@ == newline(),
{
    proof {
        reveal_strlit("\n");
    }
    "\n"
}

/// Content flattened to a plain string: strings stay, null becomes empty,
/// a part gives its text, an array gives its items' texts one per line.
pub open spec fn flatten_content_v(content: JsonV) -> JsonV {
    match content {
        JsonV::Str(s) => JsonV::Str(s),
        JsonV::Object(_) => JsonV::Str(
            match part_text_v(content) {
                Some(t) => t,
                None => Seq::empty(),
            },
        ),
        JsonV::Array(items) => JsonV::Str(join_seq(item_texts_v(items), newline())),
        _ => JsonV::Str(Seq::empty()),
    }
}

/// Flattens structured content to a plain string for text-only upstreams.
pub fn normalize_content_for_upstream(content: &Json) -> (r: Json)
    ensures
        r@ == flatten_content_v(content@),
{
    match content {
        Json::Str(s) => Json::Str(s.clone()),
        Json::Object(_) => match extract_text_from_content_part(content) {
            Some(t) => Json::Str(t),
            None => Json::Str(String::new()),
        },
        Json::Array(items) => {
            let texts = item_texts(items);
            Json::Str(join_strings(&texts, newline_str()))
        },
        _ => Json::Str(String::new()),
    }
}

/// A `{"type": "text", "text": t}` part.
pub open spec fn text_part_v(t: Seq<char>) -> JsonV {
    JsonV::Object(seq![("type"@, JsonV::Str("text"@)), ("text"@, JsonV::Str(t))])
}

fn text_part(t: String) -> (r: Json)
    ensures
        r@ == text_part_v(t@),
{
    object2("type", Json::str_of("text"), "text", Json::Str(t))
}

/// A `{"type": "image_url", "image_url": u}` part.
pub open spec fn image_part_v(u: JsonV) -> JsonV {
    JsonV::Object(seq![("type"@, JsonV::Str("image_url"@)), ("image_url"@, u)])
}

/// The image reference of an `input_image` part as Chat wants it: an object
/// stays, anything else becomes `{"url": <its text or "">}`.
pub open spec fn image_ref_v(u: JsonV) -> JsonV {
    if u is Object {
        u
    } else {
        JsonV::Object(
            seq![
                ("url"@, JsonV::Str(
                    match u {
                        JsonV::Str(s) => s,
                        _ => Seq::empty(),
                    },
                )),
            ],
        )
    }
}

/// A non-empty string member.
pub open spec fn nonempty_str_v(j: JsonV, key: Seq<char>) -> Option<Seq<char>> {
    match get_str_v(j, key) {
        Some(t) => if t.len() > 0 {
            Some(t)
        } else {
            None
        },
        None => None,
    }
}

/// The Chat part for one Responses content part, if it has one.
pub open spec fn chat_part_v(part: JsonV) -> Option<JsonV> {
    let t = part_type_v(part);
    if t == "input_text"@ || t == "output_text"@ || t == "text"@ {
        match nonempty_str_v(part, "text"@) {
            Some(s) => Some(text_part_v(s)),
            None => None,
        }
    } else if t == "refusal"@ {
        match nonempty_str_v(part, "refusal"@) {
            Some(s) => Some(text_part_v(s)),
            None => None,
        }
    } else if t == "input_image"@ {
        match get_v(part, "image_url"@) {
            Some(u) => Some(image_part_v(image_ref_v(u))),
            None => None,
        }
    } else if t == "image_url"@ {
        match get_v(part, "image_url"@) {
            Some(u) => Some(image_part_v(u)),
            None => None,
        }
    } else if t == "input_file"@ || t == "input_audio"@ || t == "input_video"@ {
        match attachment_text_v(part, t) {
            Some(s) => Some(text_part_v(s)),
            None => None,
        }
    } else {
        None
    }
}

/// The part carries an object as its `image_url`.
pub open spec fn url_is_object_v(q: JsonV) -> bool {
    get_v(q, "image_url"@) is Some && get_v(q, "image_url"@)->0 is Object
}

proof fn lemma_part_members(x: JsonV, t: Seq<char>)
    ensures
        get_str_v(image_part_v(x), "type"@) == Some("image_url"@),
        get_v(image_part_v(x), "image_url"@) == Some(x),
        get_str_v(text_part_v(t), "type"@) == Some("text"@),
{
    reveal_strlit("type");
    reveal_strlit("image_url");
    reveal_strlit("text");
    assert("type"@.len() == 4 && "image_url"@.len() == 9 && "text"@.len() == 4);
    let e = seq![("type"@, JsonV::Str("image_url"@)), ("image_url"@, x)];
    assert(crate::json::first_key_at(e, "type"@, 0));
    assert(e[0].0 != "image_url"@);
    assert(crate::json::first_key_at(e, "image_url"@, 1));
    crate::json::lemma_key_index(e, "type"@);
    crate::json::lemma_key_index(e, "image_url"@);
    let f = seq![("type"@, JsonV::Str("text"@)), ("text"@, JsonV::Str(t))];
    assert(crate::json::first_key_at(f, "type"@, 0));
    crate::json::lemma_key_index(f, "type"@);
}

/// Law: a Responses `input_image` part becomes a Chat image part whose
/// `image_url` is an object: the part's own object, or `{"url": s}` for a
/// reference given as the string `s`.
pub proof fn lemma_input_image_becomes_url_object(part: JsonV, u: JsonV)
    requires
        get_str_v(part, "type"@) == Some("input_image"@),
        get_v(part, "image_url"@) == Some(u),
    ensures
        chat_part_v(part) is Some,
        get_str_v(chat_part_v(part)->0, "type"@) == Some("image_url"@),
        url_is_object_v(chat_part_v(part)->0),
        u is Object ==> chat_part_v(part) == Some(
            JsonV::Object(seq![("type"@, JsonV::Str("image_url"@)), ("image_url"@, u)]),
        ),
        forall|s: Seq<char>|
            u == JsonV::Str(s) ==> chat_part_v(part) == Some(
                JsonV::Object(
                    seq![
                        ("type"@, JsonV::Str("image_url"@)),
                        ("image_url"@, JsonV::Object(seq![("url"@, JsonV::Str(s))])),
                    ],
                ),
            ),
{
    reveal_strlit("input_image");
    reveal_strlit("input_text");
    reveal_strlit("output_text");
    reveal_strlit("text");
    reveal_strlit("refusal");
    assert("input_image"@.len() == 11 && "input_text"@.len() == 10 && "output_text"@.len() == 11
        && "text"@.len() == 4 && "refusal"@.len() == 7);
    assert("input_image"@[0] != "output_text"@[0]);
    lemma_part_members(image_ref_v(u), Seq::empty());
}

/// Law: when no content part is a Chat `image_url` part whose reference is
/// not an object, every image part of the Chat content has an object as its
/// `image_url`.
pub proof fn lemma_image_parts_carry_url_objects(parts: Seq<JsonV>)
    requires
        forall|i: int|
            0 <= i < parts.len() && get_str_v(#[trigger] parts[i], "type"@) == Some("image_url"@)
                && get_v(parts[i], "image_url"@) is Some ==> url_is_object_v(parts[i]),
    ensures
        forall|k: int|
            0 <= k < chat_parts_v(parts).len() && get_str_v(#[trigger] chat_parts_v(parts)[k], "type"@) == Some(
                "image_url"@,
            ) ==> url_is_object_v(chat_parts_v(parts)[k]),
    decreases parts.len(),
{
    if parts.len() > 0 {
        let d = parts.drop_last();
        assert forall|i: int|
            0 <= i < d.len() && get_str_v(#[trigger] d[i], "type"@) == Some("image_url"@)
                && get_v(d[i], "image_url"@) is Some implies url_is_object_v(d[i]) by {
            assert(d[i] == parts[i]);
        }
        lemma_image_parts_carry_url_objects(d);
        let last = parts.last();
        assert(parts[parts.len() - 1] == last);
        let r = chat_parts_v(d);
        match chat_part_v(last) {
            Some(q) => {
                assert(chat_parts_v(parts) == r.push(q));
                reveal_strlit("image_url");
                reveal_strlit("text");
                assert("image_url"@.len() == 9 && "text"@.len() == 4);
                let t = part_type_v(last);
                match nonempty_str_v(last, "text"@) {
                    Some(x) => lemma_part_members(JsonV::Null, x),
                    None => {},
                }
                match nonempty_str_v(last, "refusal"@) {
                    Some(x) => lemma_part_members(JsonV::Null, x),
                    None => {},
                }
                match attachment_text_v(last, t) {
                    Some(x) => lemma_part_members(JsonV::Null, x),
                    None => {},
                }
                match get_v(last, "image_url"@) {
                    Some(u) => {
                        lemma_part_members(image_ref_v(u), Seq::empty());
                        lemma_part_members(u, Seq::empty());
                    },
                    None => {},
                }
            },
            None => {},
        }
    }
}

/// The part is an image that carries a reference.
pub open spec fn is_image_part_v(part: JsonV) -> bool {
    let t = part_type_v(part);
    (t == "input_image"@ || t == "image_url"@) && get_v(part, "image_url"@) is Some
}

/// The Chat parts of Responses content parts, in order.
pub open spec fn chat_parts_v(parts: Seq<JsonV>) -> Seq<JsonV>
    decreases parts.len(),
{
    if parts.len() == 0 {
        Seq::empty()
    } else {
        let r = chat_parts_v(parts.drop_last());
        match chat_part_v(parts.last()) {
            Some(p) => r.push(p),
            None => r,
        }
    }
}

/// Some part is an image.
pub open spec fn has_image_part_v(parts: Seq<JsonV>) -> bool {
    exists|i: int| 0 <= i < parts.len() && is_image_part_v(#[trigger] parts[i])
}

/// The `text` strings of parts, in order.
pub open spec fn part_texts_v(parts: Seq<JsonV>) -> Seq<Seq<char>>
    decreases parts.len(),
{
    if parts.len() == 0 {
        Seq::empty()
    } else {
        let r = part_texts_v(parts.drop_last());
        match get_str_v(parts.last(), "text"@) {
            Some(t) => r.push(t),
            None => r,
        }
    }
}

/// Responses content as Chat content: null and strings stay; parts become
/// text joined by newlines, or a multimodal array when an image is among
/// them; other values are flattened.
pub open spec fn chat_content_v(content: JsonV) -> JsonV {
    match content {
        JsonV::Null => content,
        JsonV::Str(_) => content,
        JsonV::Array(parts) => if has_image_part_v(parts) {
            JsonV::Array(chat_parts_v(parts))
        } else {
            JsonV::Str(join_seq(part_texts_v(chat_parts_v(parts)), newline()))
        },
        _ => flatten_content_v(content),
    }
}

fn chat_part(part: &Json) -> (r: Option<Json>)
    ensures
        match chat_part_v(part@) {
            Some(p) => r is Some && r->0@ == p,
            None => r is None,
        },
{
    let t = part_type(part);
    if str_eq(t, "input_text") || str_eq(t, "output_text") || str_eq(t, "text") {
        match part.get_str("text") {
            Some(s) => if !s.is_empty() {
                Some(text_part(s.to_string()))
            } else {
                None
            },
            None => None,
        }
    } else if str_eq(t, "refusal") {
        match part.get_str("refusal") {
            Some(s) => if !s.is_empty() {
                Some(text_part(s.to_string()))
            } else {
                None
            },
            None => None,
        }
    } else if str_eq(t, "input_image") {
        match part.get("image_url") {
            Some(u) => {
                let r = if u.is_object() {
                    deep_clone(u)
                } else {
                    let s = match u.as_str() {
                        Some(s) => s.to_string(),
                        None => String::new(),
                    };
                    object1("url", Json::Str(s))
                };
                Some(object2("type", Json::str_of("image_url"), "image_url", r))
            },
            None => None,
        }
    } else if str_eq(t, "image_url") {
        match part.get("image_url") {
            Some(u) => Some(object2("type", Json::str_of("image_url"), "image_url", deep_clone(u))),
            None => None,
        }
    } else if str_eq(t, "input_file") || str_eq(t, "input_audio") || str_eq(t, "input_video") {
        match unsupported_attachment_part_to_text(part, t) {
            Some(s) => Some(text_part(s)),
            None => None,
        }
    } else {
        None
    }
}

fn is_image_part(part: &Json) -> (r: bool)
    ensures
        r == is_image_part_v(part@),
{
    let t = part_type(part);
    (str_eq(t, "input_image") || str_eq(t, "image_url")) && part.get("image_url").is_some()
}

fn part_texts(parts: &Vec<Json>) -> (r: Vec<String>)
    ensures
        views(r@) == part_texts_v(view_items(parts@)),
{
    let ghost pv = view_items(parts@);
    let mut out: Vec<String> = Vec::new();
    let mut i: usize = 0;
    proof {
        assert(pv.take(0) =~= Seq::<JsonV>::empty());
        assert(views(out@) =~= Seq::<Seq<char>>::empty());
    }
    while i < parts.len()
        invariant
            i <= parts.len(),
            pv == view_items(parts@),
            views(out@) == part_texts_v(pv.take(i as int)),
        decreases parts.len() - i,
    {
        proof {
            assert(pv.take(i + 1).drop_last() =~= pv.take(i as int));
            assert(pv.take(i + 1).last() == pv[i as int]);
        }
        match parts[i].get_str("text") {
            Some(t) => {
                let ghost before = out@;
                out.push(t.to_string());
                proof {
                    assert(views(out@) =~= views(before).push(out@.last()@));
                }
            },
            None => {},
        }
        i = i + 1;
    }
    proof {
        assert(pv.take(parts.len() as int) =~= pv);
    }
    out
}

/// Converts Responses content to Chat content.
pub fn responses_content_to_chat_content(content: &Json) -> (r: Json)
    ensures
        r@ == chat_content_v(content@),
{
    let parts = match content {
        Json::Null => {
            return Json::Null;
        },
        Json::Str(s) => {
            return Json::Str(s.clone());
        },
        Json::Array(parts) => parts,
        _ => {
            return normalize_content_for_upstream(content);
        },
    };
    let ghost pv = view_items(parts@);
    let mut chat_parts: Vec<Json> = Vec::new();
    let mut has_non_text = false;
    let mut i: usize = 0;
    proof {
        lemma_view_items_empty();
        assert(pv.take(0) =~= Seq::<JsonV>::empty());
    }
    while i < parts.len()
        invariant
            i <= parts.len(),
            pv == view_items(parts@),
            view_items(chat_parts@) == chat_parts_v(pv.take(i as int)),
            has_non_text == has_image_part_v(pv.take(i as int)),
        decreases parts.len() - i,
    {
        proof {
            assert(pv.take(i + 1).drop_last() =~= pv.take(i as int));
            assert(pv.take(i + 1).last() == pv[i as int]);
        }
        match chat_part(&parts[i]) {
            Some(p) => {
                let ghost before = chat_parts@;
                chat_parts.push(p);
                proof {
                    lemma_view_items_push(before, chat_parts@.last());
                    assert(chat_parts@ =~= before.push(chat_parts@.last()));
                }
            },
            None => {},
        }
        let img = is_image_part(&parts[i]);
        proof {
            let t = pv.take(i + 1);
            if img {
                assert(is_image_part_v(t[i as int]));
            }
            if has_non_text {
                let w = choose|w: int| 0 <= w < i && is_image_part_v(#[trigger] pv.take(i as int)[w]);
                assert(t[w] == pv.take(i as int)[w]);
            }
            if has_image_part_v(t) {
                let w = choose|w: int| 0 <= w < i + 1 && is_image_part_v(#[trigger] t[w]);
                if w < i {
                    assert(pv.take(i as int)[w] == t[w]);
                }
            }
        }
        has_non_text = has_non_text || img;
        i = i + 1;
    }
    proof {
        assert(pv.take(parts.len() as int) =~= pv);
    }
    if !has_non_text {
        let texts = part_texts(&chat_parts);
        return Json::Str(join_strings(&texts, newline_str()));
    }
    Json::Array(chat_parts)
}

/// Some part of an array content has type `image_url`.
pub open spec fn has_image_url_part_v(content: JsonV) -> bool {
    match content {
        JsonV::Array(parts) => exists|i: int|
            0 <= i < parts.len() && get_str_v(#[trigger] parts[i], "type"@) == Some("image_url"@),
        _ => false,
    }
}

/// A message's content for an upstream: user and assistant content that is
/// already multimodal, or becomes so, stays an array; anything else is
/// flattened to text.
pub open spec fn message_content_v(role: Seq<char>, content: JsonV) -> JsonV {
    if (role == "user"@ || role == "assistant"@) && has_image_url_part_v(content) {
        content
    } else if (role == "user"@ || role == "assistant"@) && chat_content_v(content) is Array {
        chat_content_v(content)
    } else {
        flatten_content_v(content)
    }
}

fn has_image_url_part(content: &Json) -> (r: bool)
    ensures
        r == has_image_url_part_v(content@),
{
    match content {
        Json::Array(parts) => {
            let ghost pv = view_items(parts@);
            let mut i: usize = 0;
            assert(content@ == JsonV::Array(pv));
            while i < parts.len()
                invariant
                    i <= parts.len(),
                    pv == view_items(parts@),
                    content@ == JsonV::Array(pv),
                    forall|k: int|
                        0 <= k < i ==> get_str_v(#[trigger] pv[k], "type"@) != Some("image_url"@),
                decreases parts.len() - i,
            {
                let hit = match parts[i].get_str("type") {
                    Some(t) => str_eq(t, "image_url"),
                    None => false,
                };
                if hit {
                    assert(content@ == JsonV::Array(pv));
                    assert(get_str_v(pv[i as int], "type"@) == Some("image_url"@));
                    assert(has_image_url_part_v(content@));
                    return true;
                }
                i = i + 1;
            }
            assert(content@ == JsonV::Array(pv));
            false
        },
        _ => false,
    }
}

/// Converts one message's content for an upstream (see [`message_content_v`]).
pub fn normalize_message_content_for_upstream(role: &str, content: &Json) -> (r: Json)
    ensures
        r@ == message_content_v(role@, content@),
{
    if str_eq(role, "user") || str_eq(role, "assistant") {
        if has_image_url_part(content) {
            return deep_clone(content);
        }
        let converted = responses_content_to_chat_content(content);
        if converted.is_array() {
            return converted;
        }
    }
    normalize_content_for_upstream(content)
}

/// A message with its role mapped and its content converted for an
/// upstream (content read after the role is mapped; `user` when it has
/// none). Values other than objects are unchanged.
pub open spec fn normalize_message_v(m: JsonV) -> JsonV {
    if m is Object {
        let m1 = match get_str_v(m, "role"@) {
            Some(r) => set_v(m, "role"@, JsonV::Str(map_role_v(r))),
            None => m,
        };
        match get_v(m1, "content"@) {
            Some(c) => {
                let role = match get_str_v(m1, "role"@) {
                    Some(r) => r,
                    None => "user"@,
                };
                set_v(m1, "content"@, message_content_v(role, c))
            },
            None => m1,
        }
    } else {
        m
    }
}

/// [`normalize_message_v`] on every message.
pub open spec fn normalize_messages_v(ms: Seq<JsonV>) -> Seq<JsonV> {
    Seq::new(ms.len(), |i: int| normalize_message_v(ms[i]))
}

fn normalize_message(m: Json) -> (r: Json)
    ensures
        r@ == normalize_message_v(m@),
{
    let mut m = m;
    if !m.is_object() {
        return m;
    }
    let mapped: Option<String> = match m.get_str("role") {
        Some(r) => Some(map_role_for_upstream(r).to_string()),
        None => None,
    };
    match mapped {
        Some(r) => {
            m.set("role", Json::Str(r));
        },
        None => {},
    }
    let content: Option<Json> = match m.get("content") {
        Some(c) => Some(deep_clone(c)),
        None => None,
    };
    match content {
        Some(c) => {
            let role: String = match m.get_str("role") {
                Some(r) => r.to_string(),
                None => "user".to_string(),
            };
            let converted = normalize_message_content_for_upstream(role.as_str(), &c);
            m.set("content", converted);
        },
        None => {},
    }
    m
}

/// Maps roles and converts content of every message for an upstream.
pub fn normalize_messages_for_upstream(messages: &mut Vec<Json>)
    ensures
        view_items(final(messages)@) == normalize_messages_v(view_items(old(messages)@)),
{
    let ghost all = view_items(messages@);
    let mut out: Vec<Json> = Vec::new();
    let mut i: usize = 0;
    while i < messages.len()
        invariant
            i <= messages.len(),
            all == view_items(messages@),
            out.len() == i,
            forall|k: int| 0 <= k < i ==> (#[trigger] out@[k])@ == normalize_message_v(all[k]),
        decreases messages.len() - i,
    {
        out.push(normalize_message(deep_clone(&messages[i])));
        i = i + 1;
    }
    assert(view_items(out@) =~= normalize_messages_v(all));
    *messages = out;
}

/// The text of an instruction part: its `text` string, or the part itself
/// when it is a string.
pub open spec fn instruction_part_text_v(part: JsonV) -> Option<Seq<char>> {
    match get_str_v(part, "text"@) {
        Some(t) => Some(t),
        None => match part {
            JsonV::Str(s) => Some(s),
            _ => None,
        },
    }
}

/// The non-empty instruction part texts, in order.
pub open spec fn instruction_texts_v(parts: Seq<JsonV>) -> Seq<Seq<char>>
    decreases parts.len(),
{
    if parts.len() == 0 {
        Seq::empty()
    } else {
        let r = instruction_texts_v(parts.drop_last());
        match instruction_part_text_v(parts.last()) {
            Some(t) => if t.len() > 0 {
                r.push(t)
            } else {
                r
            },
            None => r,
        }
    }
}

/// Instructions as text: a string as it is, parts joined by blank lines,
/// anything else empty.
pub open spec fn instruction_text_v(value: JsonV) -> Seq<char> {
    match value {
        JsonV::Str(s) => s,
        JsonV::Array(parts) => join_seq(instruction_texts_v(parts), crate::codex_chat::para_sep()),
        _ => Seq::empty(),
    }
}

/// The text of a Responses `instructions` value.
pub fn instruction_text(value: &Json) -> (r: String)
    ensures
        r@ == instruction_text_v(value@),
{
    match value {
        Json::Str(s) => s.clone(),
        Json::Array(parts) => {
            let ghost pv = view_items(parts@);
            let mut texts: Vec<String> = Vec::new();
            let mut i: usize = 0;
            proof {
                assert(pv.take(0) =~= Seq::<JsonV>::empty());
                assert(views(texts@) =~= Seq::<Seq<char>>::empty());
            }
            while i < parts.len()
                invariant
                    i <= parts.len(),
                    pv == view_items(parts@),
                    views(texts@) == instruction_texts_v(pv.take(i as int)),
                decreases parts.len() - i,
            {
                proof {
                    assert(pv.take(i + 1).drop_last() =~= pv.take(i as int));
                    assert(pv.take(i + 1).last() == pv[i as int]);
                }
                let t: Option<&str> = match parts[i].get_str("text") {
                    Some(t) => Some(t),
                    None => parts[i].as_str(),
                };
                match t {
                    Some(t) => if !t.is_empty() {
                        let ghost before = texts@;
                        texts.push(t.to_string());
                        proof {
                            assert(views(texts@) =~= views(before).push(texts@.last()@));
                        }
                    },
                    None => {},
                }
                i = i + 1;
            }
            proof {
                assert(pv.take(parts.len() as int) =~= pv);
            }
            join_strings(&texts, crate::codex_chat::para_sep_str())
        },
        _ => String::new(),
    }
}

} // verus!
