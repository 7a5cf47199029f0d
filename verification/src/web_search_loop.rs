use vstd::prelude::*;

use crate::json::{
    Json, JsonValue, array1, is_null_or_object, json_str, keys_view, lemma_path_set_frame,
    lemma_path_set_get, lemma_path_set_prefix_object, lemma_path_set_settable,
    lemma_path_settable_prefixes, is_parting, lemma_member_of_object, member, parts_from, object1, object2, object3, path_get, path_set, path_settable,
};
use crate::models::anthropic::AnthropicTool;
use crate::web_search::{
    ExaClient, WebSearchResult, WebSearchResultView, results_text, results_view,
};

verus! {

/// A tool is the server-side `web_search` tool: so named, with no input schema.
pub open spec fn is_server_web_search(tool: AnthropicTool) -> bool {
    tool.name@ == "web_search"@ && tool.input_schema is None
}

/// Some tool of the list is the server-side `web_search` tool.
pub open spec fn offers_server_web_search(tools: Option<Vec<AnthropicTool>>) -> bool {
    match tools {
        Some(ts) => exists|i: int| 0 <= i < ts@.len() && is_server_web_search(#[trigger] ts@[i]),
        None => false,
    }
}

/// The server-side `web_search` tool is offered exactly where some position of
/// the tool list holds a tool named `web_search` without an input schema,
/// wherever in the list it stands.
pub proof fn law_offers_server_web_search(tools: Option<Vec<AnthropicTool>>)
    ensures
        offers_server_web_search(tools) <==> (tools matches Some(ts) && exists|i: int|
            0 <= i < ts@.len() && (#[trigger] ts@[i]).name@ == "web_search"@ && ts@[i].input_schema is None),
        forall|ts: Vec<AnthropicTool>, i: int|
            0 <= i < ts@.len() && (#[trigger] ts@[i]).name@ == "web_search"@ && ts@[i].input_schema is None
                ==> offers_server_web_search(Some(ts)),
{
    assert forall|ts: Vec<AnthropicTool>, i: int|
        0 <= i < ts@.len() && (#[trigger] ts@[i]).name@ == "web_search"@ && ts@[i].input_schema is None
            implies offers_server_web_search(Some(ts)) by {
        let o = Some(ts);
        assert(o->Some_0@[i] == ts@[i]);
        assert(is_server_web_search(o->Some_0@[i]));
    }
    if let Some(ts) = tools {
        if offers_server_web_search(tools) {
            let i = choose|i: int| 0 <= i < ts@.len() && is_server_web_search(#[trigger] ts@[i]);
            assert(ts@[i].name@ == "web_search"@ && ts@[i].input_schema is None);
        }
    }
}

/// Check if the request tools include a web_search server-side tool.
pub fn has_web_search_tool(tools: &Option<Vec<AnthropicTool>>) -> (r: bool)
    ensures
        r == offers_server_web_search(*tools),
        r <==> (*tools matches Some(ts) && exists|i: int|
            0 <= i < ts@.len() && (#[trigger] ts@[i]).name@ == "web_search"@ && ts@[i].input_schema is None),
{
    proof {
        law_offers_server_web_search(*tools);
    }
    match tools {
        None => false,
        Some(ts) => {
            let web_search = "web_search".to_owned();
            let mut i: usize = 0;
            while i < ts.len()
                invariant
                    i <= ts@.len(),
                    web_search@ == "web_search"@,
                    *tools == Some(*ts),
                    forall|j: int| 0 <= j < i ==> !is_server_web_search(#[trigger] ts@[j]),
                decreases ts@.len() - i,
            {
                if ts[i].name == web_search && ts[i].input_schema.is_none() {
                    assert(is_server_web_search(ts@[i as int]));
                    assert(tools->Some_0@[i as int] == ts@[i as int]);
                    assert(offers_server_web_search(*tools));
                    return true;
                }
                i = i + 1;
            }
            false
        },
    }
}

// The follow-up request
pub open spec fn history_path() -> Seq<Seq<char>> {
    seq!["conversationState"@, "history"@]
}

pub open spec fn content_path() -> Seq<Seq<char>> {
    seq!["conversationState"@, "currentMessage"@, "userInputMessage"@, "content"@]
}

pub open spec fn tool_results_path() -> Seq<Seq<char>> {
    seq![
        "conversationState"@,
        "currentMessage"@,
        "userInputMessage"@,
        "userInputMessageContext"@,
        "toolResults"@,
    ]
}

/// The turns of a Kiro payload's history; none where it holds no array.
pub open spec fn history_of(payload: JsonValue) -> Seq<JsonValue> {
    match path_get(payload, history_path()) {
        JsonValue::Array(items) => items,
        _ => Seq::empty(),
    }
}

/// The history turn that records a web search: the user's message as it was,
/// and the assistant's text with its call of `web_search`.
pub open spec fn history_turn(prior_content: JsonValue, assistant_text: Seq<char>, tool_use_id: Seq<char>) -> JsonValue {
    JsonValue::Object(
        seq![
            ("userInputMessage"@, JsonValue::Object(seq![("content"@, prior_content)])),
            (
                "assistantResponseMessage"@,
                JsonValue::Object(
                    seq![
                        ("content"@, JsonValue::Str(assistant_text)),
                        (
                            "toolUses"@,
                            JsonValue::Array(
                                seq![
                                    JsonValue::Object(
                                        seq![
                                            ("toolUseId"@, JsonValue::Str(tool_use_id)),
                                            ("name"@, JsonValue::Str("web_search"@)),
                                            ("input"@, JsonValue::Object(Seq::empty())),
                                        ],
                                    ),
                                ],
                            ),
                        ),
                    ],
                ),
            ),
        ],
    )
}

/// The tool results of the follow-up message: one successful result whose text
/// is the formatted search results.
pub open spec fn tool_results_value(tool_use_id: Seq<char>, text: Seq<char>) -> JsonValue {
    JsonValue::Array(
        seq![
            JsonValue::Object(
                seq![
                    (
                        "content"@,
                        JsonValue::Array(seq![JsonValue::Object(seq![("text"@, JsonValue::Str(text))])]),
                    ),
                    ("status"@, JsonValue::Str("success"@)),
                    ("toolUseId"@, JsonValue::Str(tool_use_id)),
                ],
            ),
        ],
    )
}

/// The payload after the turn is appended to the history.
pub open spec fn followup_step1(payload: JsonValue, assistant_text: Seq<char>, tool_use_id: Seq<char>) -> JsonValue {
    let turn = history_turn(path_get(payload, content_path()), assistant_text, tool_use_id);
    path_set(payload, history_path(), JsonValue::Array(history_of(payload).push(turn)))
}

/// The payload after the current message's content is replaced too.
pub open spec fn followup_step2(
    payload: JsonValue,
    assistant_text: Seq<char>,
    tool_use_id: Seq<char>,
    text: Seq<char>,
) -> JsonValue {
    path_set(followup_step1(payload, assistant_text, tool_use_id), content_path(), JsonValue::Str(text))
}

/// The follow-up payload: the history gains the turn, the current message's
/// content becomes the search results, and its context gets the tool result.
pub open spec fn followup_payload(
    payload: JsonValue,
    assistant_text: Seq<char>,
    tool_use_id: Seq<char>,
    text: Seq<char>,
) -> JsonValue {
    path_set(
        followup_step2(payload, assistant_text, tool_use_id, text),
        tool_results_path(),
        tool_results_value(tool_use_id, text),
    )
}

/// The three assignments of the follow-up can be made (else building it panics).
pub open spec fn followup_defined(payload: JsonValue) -> bool {
    &&& path_settable(payload, history_path())
    &&& path_settable(followup_step1(payload, Seq::empty(), Seq::empty()), content_path())
    &&& path_settable(
        followup_step2(payload, Seq::empty(), Seq::empty(), Seq::empty()),
        tool_results_path(),
    )
}

proof fn lemma_path_keys_distinct()
    ensures
        "history"@ != "currentMessage"@,
        "content"@ != "userInputMessageContext"@,
{
    reveal_strlit("history");
    reveal_strlit("currentMessage");
    reveal_strlit("content");
    reveal_strlit("userInputMessageContext");
    assert("history"@[0] != "currentMessage"@[0]);
    assert("content"@.len() != "userInputMessageContext"@.len());
}

/// The second and third assignment of the follow-up can be made exactly where
/// the message, the user input and its context read null or an object.
proof fn lemma_followup_steps_settable(payload: JsonValue, a: Seq<char>, id: Seq<char>, x: Seq<char>)
    ensures
        path_settable(followup_step1(payload, a, id), content_path()) <==> is_null_or_object(
            path_get(payload, tool_results_path().take(2)),
        ) && is_null_or_object(path_get(payload, tool_results_path().take(3))),
        path_settable(followup_step2(payload, a, id, x), tool_results_path()) <==> is_null_or_object(
            path_get(payload, tool_results_path().take(4)),
        ),
{
    lemma_path_keys_distinct();
    let h = history_path();
    let c = content_path();
    let t = tool_results_path();
    let p1 = followup_step1(payload, a, id);
    let p2 = followup_step2(payload, a, id, x);
    let hist = JsonValue::Array(history_of(payload).push(history_turn(path_get(payload, c), a, id)));
    assert(t.take(2) =~= c.take(2));
    assert(t.take(3) =~= c.take(3));
    assert(c.take(0) =~= t.take(0));
    assert(c.take(1) =~= t.take(1));
    lemma_path_settable_prefixes(p1, c);
    lemma_path_settable_prefixes(p2, t);
    lemma_path_set_prefix_object(payload, h, hist, 0);
    lemma_path_set_prefix_object(payload, h, hist, 1);
    assert(h.take(0) =~= c.take(0));
    assert(h.take(1) =~= c.take(1));
    lemma_path_set_frame(payload, h, hist, c.take(2), 1);
    lemma_path_set_frame(payload, h, hist, c.take(3), 1);
    lemma_path_set_prefix_object(p1, c, JsonValue::Str(x), 0);
    lemma_path_set_prefix_object(p1, c, JsonValue::Str(x), 1);
    lemma_path_set_prefix_object(p1, c, JsonValue::Str(x), 2);
    lemma_path_set_prefix_object(p1, c, JsonValue::Str(x), 3);
    lemma_path_set_frame(p1, c, JsonValue::Str(x), t.take(4), 3);
    lemma_path_set_frame(payload, h, hist, t.take(4), 1);
    if path_settable(p2, t) {
        assert(is_null_or_object(path_get(p2, t.take(4))));
    }
    if path_settable(p1, c) {
        assert(is_null_or_object(path_get(p1, c.take(2))));
        assert(is_null_or_object(path_get(p1, c.take(3))));
    }
}

/// Whether the follow-up can be built does not depend on the texts, and it can
/// be built exactly where every proper prefix of the tool-results path reads null
/// or an object.
pub proof fn lemma_followup_defined(payload: JsonValue, assistant_text: Seq<char>, tool_use_id: Seq<char>, text: Seq<char>)
    ensures
        followup_defined(payload) <==> path_settable(payload, tool_results_path()),
        followup_defined(payload) <==> {
            &&& path_settable(payload, history_path())
            &&& path_settable(followup_step1(payload, assistant_text, tool_use_id), content_path())
            &&& path_settable(
                followup_step2(payload, assistant_text, tool_use_id, text),
                tool_results_path(),
            )
        },
{
    let h = history_path();
    let t = tool_results_path();
    assert(t.take(0) =~= h.take(0));
    assert(t.take(1) =~= h.take(1));
    lemma_path_settable_prefixes(payload, h);
    lemma_path_settable_prefixes(payload, t);
    lemma_followup_steps_settable(payload, assistant_text, tool_use_id, text);
    lemma_followup_steps_settable(payload, Seq::empty(), Seq::empty(), Seq::empty());
    if path_settable(payload, t) {
        assert(is_null_or_object(path_get(payload, t.take(0))));
        assert(is_null_or_object(path_get(payload, t.take(1))));
        assert(is_null_or_object(path_get(payload, t.take(2))));
        assert(is_null_or_object(path_get(payload, t.take(3))));
        assert(is_null_or_object(path_get(payload, t.take(4))));
    }
    if path_settable(payload, h) {
        assert(is_null_or_object(path_get(payload, h.take(0))));
        assert(is_null_or_object(path_get(payload, h.take(1))));
    }
}

/// The follow-up payload's history is the old history with the turn appended; its
/// current content is the search results; its tool results are the one result;
/// and another follow-up can be built from it.
pub proof fn lemma_followup_payload(payload: JsonValue, assistant_text: Seq<char>, tool_use_id: Seq<char>, text: Seq<char>)
    ensures
        history_of(followup_payload(payload, assistant_text, tool_use_id, text)) == history_of(payload).push(
            history_turn(path_get(payload, content_path()), assistant_text, tool_use_id),
        ),
        path_get(followup_payload(payload, assistant_text, tool_use_id, text), content_path())
            == JsonValue::Str(text),
        path_get(followup_payload(payload, assistant_text, tool_use_id, text), tool_results_path())
            == tool_results_value(tool_use_id, text),
        followup_defined(followup_payload(payload, assistant_text, tool_use_id, text)),
{
    lemma_path_keys_distinct();
    let h = history_path();
    let c = content_path();
    let t = tool_results_path();
    let hist = JsonValue::Array(
        history_of(payload).push(history_turn(path_get(payload, c), assistant_text, tool_use_id)),
    );
    let p1 = followup_step1(payload, assistant_text, tool_use_id);
    let p2 = followup_step2(payload, assistant_text, tool_use_id, text);
    let p3 = followup_payload(payload, assistant_text, tool_use_id, text);
    lemma_path_set_get(payload, h, hist);
    lemma_path_set_frame(p1, c, JsonValue::Str(text), h, 1);
    lemma_path_set_frame(p2, t, tool_results_value(tool_use_id, text), h, 1);
    lemma_path_set_get(p1, c, JsonValue::Str(text));
    lemma_path_set_frame(p2, t, tool_results_value(tool_use_id, text), c, 3);
    lemma_path_set_get(p2, t, tool_results_value(tool_use_id, text));
    lemma_path_set_settable(p2, t, tool_results_value(tool_use_id, text));
    lemma_followup_defined(p3, Seq::empty(), Seq::empty(), Seq::empty());
}

/// The follow-up payload changes nothing but the history, the current
/// message's content and its tool results: every key path that parts from those
/// three reads in the follow-up what it read in the payload it was built from.
pub proof fn law_followup_frame(
    payload: JsonValue,
    assistant_text: Seq<char>,
    tool_use_id: Seq<char>,
    text: Seq<char>,
    q: Seq<Seq<char>>,
)
    requires
        parts_from(q, history_path()),
        parts_from(q, content_path()),
        parts_from(q, tool_results_path()),
    ensures
        path_get(followup_payload(payload, assistant_text, tool_use_id, text), q) == path_get(payload, q),
{
    let h = history_path();
    let c = content_path();
    let t = tool_results_path();
    let hist = JsonValue::Array(
        history_of(payload).push(history_turn(path_get(payload, c), assistant_text, tool_use_id)),
    );
    let p1 = followup_step1(payload, assistant_text, tool_use_id);
    let p2 = followup_step2(payload, assistant_text, tool_use_id, text);
    let ih = choose|i: int| is_parting(q, h, i);
    let ic = choose|i: int| is_parting(q, c, i);
    let it = choose|i: int| is_parting(q, t, i);
    lemma_path_set_frame(payload, h, hist, q, ih);
    lemma_path_set_frame(p1, c, JsonValue::Str(text), q, ic);
    lemma_path_set_frame(p2, t, tool_results_value(tool_use_id, text), q, it);
}

fn path_of(keys: &[&str]) -> (r: Vec<String>)
    ensures
        r@.len() == keys@.len(),
        forall|i: int| 0 <= i < keys@.len() ==> #[trigger] r@[i]@ == keys@[i]@,
{
    let mut r: Vec<String> = Vec::new();
    let mut i: usize = 0;
    while i < keys.len()
        invariant
            i <= keys@.len(),
            r@.len() == i,
            forall|j: int| 0 <= j < i ==> #[trigger] r@[j]@ == keys@[j]@,
        decreases keys@.len() - i,
    {
        r.push(keys[i].to_owned());
        i = i + 1;
    }
    r
}

/// The key path of the history.
fn history_path_keys() -> (r: Vec<String>)
    ensures
        keys_view(r@) == history_path(),
{
    let r = path_of(&["conversationState", "history"]);
    assert(keys_view(r@) =~= history_path());
    r
}

/// The key path of the current message's content.
fn content_path_keys() -> (r: Vec<String>)
    ensures
        keys_view(r@) == content_path(),
{
    let r = path_of(&["conversationState", "currentMessage", "userInputMessage", "content"]);
    assert(keys_view(r@) =~= content_path());
    r
}

/// The key path of the current message's tool results.
fn tool_results_path_keys() -> (r: Vec<String>)
    ensures
        keys_view(r@) == tool_results_path(),
{
    let r = path_of(
        &[
            "conversationState",
            "currentMessage",
            "userInputMessage",
            "userInputMessageContext",
            "toolResults",
        ],
    );
    assert(keys_view(r@) =~= tool_results_path());
    r
}

/// The follow-up can be built from `payload` (`followup_defined`).
pub fn can_build_followup(payload: &Json) -> (r: bool)
    ensures
        r == followup_defined(payload@),
{
    let t = tool_results_path_keys();
    proof {
        lemma_followup_defined(payload@, Seq::empty(), Seq::empty(), Seq::empty());
    }
    payload.path_settable(t.as_slice())
}

/// Build a follow-up Kiro payload with the assistant's response and tool result in history.
pub fn build_followup_payload(
    original_payload: &Json,
    assistant_text: &str,
    tool_use_id: &str,
    tool_result_text: &str,
) -> (r: Json)
    requires
        followup_defined(original_payload@),
    ensures
        r@ == followup_payload(original_payload@, assistant_text@, tool_use_id@, tool_result_text@),
        history_of(r@) == history_of(original_payload@).push(
            history_turn(path_get(original_payload@, content_path()), assistant_text@, tool_use_id@),
        ),
        path_get(r@, content_path()) == JsonValue::Str(tool_result_text@),
        path_get(r@, tool_results_path()) == tool_results_value(tool_use_id@, tool_result_text@),
        followup_defined(r@),
{
    let h = history_path_keys();
    let c = content_path_keys();
    let t = tool_results_path_keys();
    assert(keys_view(h@).skip(0) =~= history_path());
    assert(keys_view(c@).skip(0) =~= content_path());
    assert(keys_view(t@).skip(0) =~= tool_results_path());
    let history_value = match original_payload.get_path(h.as_slice(), 0) {
        Some(j) => j.deep_clone(),
        None => Json::Null,
    };
    let mut history: Vec<Json> = match history_value {
        Json::Array(items) => items,
        _ => Vec::new(),
    };
    let ghost h0 = history@;
    assert(crate::json::items_view(h0) == history_of(original_payload@));
    let prior_content = match original_payload.get_path(c.as_slice(), 0) {
        Some(j) => j.deep_clone(),
        None => Json::Null,
    };
    let tool_use = object3(
        "toolUseId",
        json_str(tool_use_id),
        "name",
        json_str("web_search"),
        "input",
        Json::Object(Vec::new()),
    );
    let turn = object2(
        "userInputMessage",
        object1("content", prior_content),
        "assistantResponseMessage",
        object2("content", json_str(assistant_text), "toolUses", array1(tool_use)),
    );
    proof {
        assert(crate::json::fields_view(Seq::<(String, Json)>::empty()) =~= Seq::empty());
        assert(turn@ == history_turn(path_get(original_payload@, content_path()), assistant_text@, tool_use_id@));
    }
    history.push(turn);
    let history_json = Json::Array(history);
    proof {
        assert(history@.drop_last() =~= h0);
        assert(history_json@ == JsonValue::Array(
            history_of(original_payload@).push(
                history_turn(path_get(original_payload@, content_path()), assistant_text@, tool_use_id@),
            ),
        ));
    }
    let tool_results = array1(
        object3(
            "content",
            array1(object1("text", json_str(tool_result_text))),
            "status",
            json_str("success"),
            "toolUseId",
            json_str(tool_use_id),
        ),
    );
    let payload = original_payload.deep_clone();
    let payload = payload.with_path_set(h.as_slice(), 0, history_json);
    let payload = payload.with_path_set(c.as_slice(), 0, json_str(tool_result_text));
    let payload = payload.with_path_set(t.as_slice(), 0, tool_results);
    proof {
        lemma_followup_payload(original_payload@, assistant_text@, tool_use_id@, tool_result_text@);
    }
    payload
}


// Server tool ids
pub open spec fn is_lower_hex(c: char) -> bool {
    (('0' as u32) <= (c as u32) && (c as u32) <= ('9' as u32)) || (('a' as u32) <= (c as u32) && (c
        as u32) <= ('f' as u32))
}

pub open spec fn is_hyphen_position(i: int) -> bool {
    i == 8 || i == 13 || i == 18 || i == 23
}

/// The hyphenated lower-case text of a UUID: 36 characters, hyphens at
/// positions 8, 13, 18 and 23, hexadecimal digits elsewhere.
pub open spec fn is_uuid_text(u: Seq<char>) -> bool {
    &&& u.len() == 36
    &&& forall|i: int|
        0 <= i < 36 ==> if is_hyphen_position(i) {
            u[i] == '-'
        } else {
            is_lower_hex(#[trigger] u[i])
        }
}

/// The text with every hyphen removed.
pub open spec fn without_hyphens(u: Seq<char>) -> Seq<char> {
    u.filter(|c: char| c != '-')
}

/// The id of a server tool use made from a UUID's text: `srvtoolu_` and the
/// first 24 characters of the text without its hyphens.
pub open spec fn server_tool_id(uuid: Seq<char>) -> Seq<char> {
    "srvtoolu_"@ + without_hyphens(uuid).take(24)
}

/// `srvtoolu_` and 24 lower-case hexadecimal digits.
pub open spec fn is_server_tool_id(id: Seq<char>) -> bool {
    &&& id.len() == 33
    &&& id.take(9) == "srvtoolu_"@
    &&& forall|i: int| 9 <= i < 33 ==> is_lower_hex(#[trigger] id[i])
}

/// The number of hyphen positions before position `i` of a UUID's text.
pub open spec fn hyphens_before(i: int) -> int {
    (if i > 8 { 1int } else { 0 }) + (if i > 13 { 1int } else { 0 }) + (if i > 18 { 1int } else { 0 }) + (
    if i > 23 { 1int } else { 0 })
}

/// The first `i` characters of a UUID's text, without hyphens, are
/// `i - hyphens_before(i)` hexadecimal digits.
pub proof fn lemma_without_hyphens_prefix(u: Seq<char>, i: int)
    requires
        is_uuid_text(u),
        0 <= i <= 36,
    ensures
        without_hyphens(u.take(i)).len() == i - hyphens_before(i),
        forall|k: int| 0 <= k < without_hyphens(u.take(i)).len() ==> is_lower_hex(#[trigger] without_hyphens(u.take(i))[k]),
    decreases i,
{
    reveal_with_fuel(Seq::filter, 1);
    if i > 0 {
        lemma_without_hyphens_prefix(u, i - 1);
        assert(u.take(i).drop_last() =~= u.take(i - 1));
        assert(u.take(i).last() == u[i - 1]);
    } else {
        assert(u.take(0) =~= Seq::<char>::empty());
    }
}

/// The server tool id made from a UUID's text is `srvtoolu_` and 24
/// lower-case hexadecimal digits.
pub proof fn lemma_server_tool_id_shape(u: Seq<char>)
    requires
        is_uuid_text(u),
    ensures
        is_server_tool_id(server_tool_id(u)),
{
    reveal_strlit("srvtoolu_");
    lemma_without_hyphens_prefix(u, 36);
    assert(u.take(36) =~= u);
    let id = server_tool_id(u);
    assert(id.take(9) =~= "srvtoolu_"@);
    assert forall|i: int| 9 <= i < 33 implies is_lower_hex(#[trigger] id[i]) by {
        assert(id[i] == without_hyphens(u)[i - 9]);
    }
}

/// The text is the hyphenated lower-case text of a UUID (`is_uuid_text`).
pub fn is_uuid(u: &str) -> (r: bool)
    ensures
        r == is_uuid_text(u@),
{
    let n = u.unicode_len();
    if n != 36 {
        return false;
    }
    let mut i: usize = 0;
    while i < 36
        invariant
            n == u@.len(),
            n == 36,
            i <= 36,
            forall|k: int|
                0 <= k < i ==> if is_hyphen_position(k) {
                    u@[k] == '-'
                } else {
                    is_lower_hex(#[trigger] u@[k])
                },
        decreases 36 - i,
    {
        let c = u.get_char(i);
        let v = c as u32;
        let ok = if i == 8 || i == 13 || i == 18 || i == 23 {
            c == '-'
        } else {
            (48 <= v && v <= 57) || (97 <= v && v <= 102)
        };
        if !ok {
            assert(!(if is_hyphen_position(i as int) {
                u@[i as int] == '-'
            } else {
                is_lower_hex(u@[i as int])
            }));
            return false;
        }
        i = i + 1;
    }
    true
}

/// The server tool id made from a UUID's text: `srvtoolu_` and the first 24
/// characters of the text without hyphens.
pub fn server_tool_id_from_uuid(uuid: &str) -> (r: String)
    requires
        is_uuid_text(uuid@),
    ensures
        r@ == server_tool_id(uuid@),
{
    let n = uuid.unicode_len();
    let mut compact = String::new();
    let mut i: usize = 0;
    assert(uuid@.take(0) =~= Seq::<char>::empty());
    while i < n
        invariant
            n == uuid@.len(),
            i <= n,
            is_uuid_text(uuid@),
            compact@ == without_hyphens(uuid@.take(i as int)),
        decreases n - i,
    {
        let c = uuid.get_char(i);
        if c != '-' {
            compact.append(uuid.substring_char(i, i + 1));
        }
        proof {
            reveal_with_fuel(Seq::filter, 1);
            assert(uuid@.take(i + 1).drop_last() =~= uuid@.take(i as int));
            assert(uuid@.take(i + 1).last() == c);
            assert(uuid@.subrange(i as int, i + 1) =~= seq![c]);
            assert(compact@ =~= without_hyphens(uuid@.take(i + 1)));
        }
        i = i + 1;
    }
    proof {
        assert(uuid@.take(36) =~= uuid@);
        lemma_without_hyphens_prefix(uuid@, 36);
    }
    let digits = compact.as_str().substring_char(0, 24);
    let mut id = String::new();
    id.append("srvtoolu_");
    id.append(digits);
    proof {
        assert(id@ =~= server_tool_id(uuid@));
    }
    id
}

// What a Kiro response holds
/// A tool call in a Kiro response.
#[derive(Debug, Clone, PartialEq)]
pub struct KiroToolUse {
    pub tool_use_id: String,
    pub name: String,
    pub input: Json,
}

pub struct KiroToolUseView {
    pub tool_use_id: Seq<char>,
    pub name: Seq<char>,
    pub input: JsonValue,
}

impl View for KiroToolUse {
    type V = KiroToolUseView;

    open spec fn view(&self) -> KiroToolUseView {
        KiroToolUseView { tool_use_id: self.tool_use_id@, name: self.name@, input: self.input@ }
    }
}

impl KiroToolUse {
    /// A copy of the call.
    pub fn deep_clone(&self) -> (r: KiroToolUse)
        ensures
            r@ == self@,
    {
        KiroToolUse {
            tool_use_id: self.tool_use_id.clone(),
            name: self.name.clone(),
            input: self.input.deep_clone(),
        }
    }
}

/// The token usage reported with a Kiro response.
#[derive(Debug, Clone, Copy, PartialEq, Eq)]
pub struct KiroUsage {
    pub input_tokens: i32,
    pub output_tokens: i32,
}

/// A Kiro response, collected in full: its text, its tool calls, its usage.
#[derive(Debug, Clone, PartialEq)]
pub struct KiroResponse {
    pub content: String,
    pub tool_calls: Vec<KiroToolUse>,
    pub usage: Option<KiroUsage>,
}

pub struct KiroResponseView {
    pub content: Seq<char>,
    pub tool_calls: Seq<KiroToolUseView>,
    pub input_tokens: int,
    pub output_tokens: int,
}

pub open spec fn tool_uses_view(calls: Seq<KiroToolUse>) -> Seq<KiroToolUseView> {
    calls.map_values(|c: KiroToolUse| c@)
}

impl View for KiroResponse {
    type V = KiroResponseView;

    /// A response without usage counts no tokens.
    open spec fn view(&self) -> KiroResponseView {
        KiroResponseView {
            content: self.content@,
            tool_calls: tool_uses_view(self.tool_calls@),
            input_tokens: match self.usage {
                Some(u) => u.input_tokens as int,
                None => 0,
            },
            output_tokens: match self.usage {
                Some(u) => u.output_tokens as int,
                None => 0,
            },
        }
    }
}

/// The calls of `web_search`, in order.
pub open spec fn web_search_calls(calls: Seq<KiroToolUseView>) -> Seq<KiroToolUseView> {
    calls.filter(|c: KiroToolUseView| c.name == "web_search"@)
}

/// The query of a `web_search` call: its input's `query` string, else empty.
pub open spec fn query_of(input: JsonValue) -> Seq<char> {
    match crate::json::member(input, "query"@) {
        JsonValue::Str(q) => q,
        _ => Seq::empty(),
    }
}

/// The `web_search` calls among `calls`, copied.
fn select_web_search_calls(calls: &Vec<KiroToolUse>) -> (r: Vec<KiroToolUse>)
    ensures
        tool_uses_view(r@) == web_search_calls(tool_uses_view(calls@)),
{
    let web_search = "web_search".to_owned();
    let mut out: Vec<KiroToolUse> = Vec::new();
    let mut i: usize = 0;
    assert(tool_uses_view(calls@).take(0) =~= Seq::<KiroToolUseView>::empty());
    assert(tool_uses_view(out@) =~= Seq::<KiroToolUseView>::empty());
    while i < calls.len()
        invariant
            i <= calls@.len(),
            web_search@ == "web_search"@,
            tool_uses_view(out@) == web_search_calls(tool_uses_view(calls@).take(i as int)),
        decreases calls@.len() - i,
    {
        let ghost before = out@;
        if calls[i].name == web_search {
            out.push(calls[i].deep_clone());
        }
        proof {
            reveal_with_fuel(Seq::filter, 1);
            let v = tool_uses_view(calls@);
            assert(v.take(i + 1).drop_last() =~= v.take(i as int));
            assert(v.take(i + 1).last() == calls@[i as int]@);
            assert(tool_uses_view(out@) =~= web_search_calls(v.take(i + 1)));
        }
        i = i + 1;
    }
    assert(tool_uses_view(calls@).take(i as int) =~= tool_uses_view(calls@));
    out
}

/// The query of a `web_search` call's input.
fn search_query(input: &Json) -> (r: String)
    ensures
        r@ == query_of(input@),
{
    let key = "query".to_owned();
    match input.get(&key) {
        Some(Json::Str(q)) => q.clone(),
        _ => String::new(),
    }
}

// The blocks that the loop emits
/// A content block that the loop emits for the client.
#[derive(Debug, Clone, PartialEq)]
pub enum LoopBlock {
    Text(String),
    ToolUse { id: String, name: String, input: Json },
    ServerToolUse { id: String, query: String },
    SearchResults { tool_use_id: String, results: Vec<WebSearchResult> },
    SearchError { tool_use_id: String },
}

pub enum LoopBlockView {
    Text(Seq<char>),
    ToolUse { id: Seq<char>, name: Seq<char>, input: JsonValue },
    ServerToolUse { id: Seq<char>, query: Seq<char> },
    SearchResults { tool_use_id: Seq<char>, results: Seq<WebSearchResultView> },
    SearchError { tool_use_id: Seq<char> },
}

impl View for LoopBlock {
    type V = LoopBlockView;

    open spec fn view(&self) -> LoopBlockView {
        match self {
            LoopBlock::Text(t) => LoopBlockView::Text(t@),
            LoopBlock::ToolUse { id, name, input } => LoopBlockView::ToolUse {
                id: id@,
                name: name@,
                input: input@,
            },
            LoopBlock::ServerToolUse { id, query } => LoopBlockView::ServerToolUse {
                id: id@,
                query: query@,
            },
            LoopBlock::SearchResults { tool_use_id, results } => LoopBlockView::SearchResults {
                tool_use_id: tool_use_id@,
                results: results_view(results@),
            },
            LoopBlock::SearchError { tool_use_id } => LoopBlockView::SearchError {
                tool_use_id: tool_use_id@,
            },
        }
    }
}

pub open spec fn blocks_view(bs: Seq<LoopBlock>) -> Seq<LoopBlockView> {
    bs.map_values(|b: LoopBlock| b@)
}

/// The tool use block of a tool call.
pub open spec fn tool_use_block(c: KiroToolUseView) -> LoopBlockView {
    LoopBlockView::ToolUse { id: c.tool_use_id, name: c.name, input: c.input }
}

/// One tool use block per call, in order.
pub open spec fn tool_use_blocks(calls: Seq<KiroToolUseView>) -> Seq<LoopBlockView> {
    calls.map_values(|c: KiroToolUseView| tool_use_block(c))
}

/// The blocks that a Kiro response adds: its text, where it has any; then,
/// where it calls no `web_search` and so is returned as it is, one tool use
/// block per tool call.
pub open spec fn response_blocks(r: KiroResponseView) -> Seq<LoopBlockView> {
    (if r.content.len() > 0 {
        seq![LoopBlockView::Text(r.content)]
    } else {
        Seq::empty()
    }) + (if web_search_calls(r.tool_calls).len() == 0 {
        tool_use_blocks(r.tool_calls)
    } else {
        Seq::empty()
    })
}

/// The phase of the loop: what it waits for.
#[derive(PartialEq, Eq, Structural, Clone, Copy, Debug)]
pub enum LoopPhase {
    AwaitingResponse,
    AwaitingSearch,
    Finished,
}

/// What the loop asks its driver to do next.
#[derive(Debug, Clone, PartialEq)]
pub enum LoopAction {
    /// Send this payload to Kiro and report the collected response.
    SendRequest(Json),
    /// Search the web for this query and report the results, or the failure.
    Search(String),
    /// Nothing: the result is ready.
    Finish,
}

pub enum LoopActionView {
    SendRequest(JsonValue),
    Search(Seq<char>),
    Finish,
}

impl View for LoopAction {
    type V = LoopActionView;

    open spec fn view(&self) -> LoopActionView {
        match self {
            LoopAction::SendRequest(p) => LoopActionView::SendRequest(p@),
            LoopAction::Search(q) => LoopActionView::Search(q@),
            LoopAction::Finish => LoopActionView::Finish,
        }
    }
}

/// The model of the loop's state.
pub struct LoopState {
    pub blocks: Seq<LoopBlockView>,
    pub input_tokens: int,
    pub output_tokens: int,
    pub payload: JsonValue,
    pub max_iterations: nat,
    pub iterations: nat,
    pub assistant_text: Seq<char>,
    pub calls: Seq<KiroToolUseView>,
    pub next_call: nat,
    pub current_id: Seq<char>,
    pub current_query: Seq<char>,
    pub responses: Seq<KiroResponseView>,
    pub ends_in_tool_use: bool,
    pub phase: LoopPhase,
}

/// The loop before anything was sent: nothing to do where no iteration is allowed.
pub open spec fn initial_state(payload: JsonValue, max_iterations: nat) -> LoopState {
    LoopState {
        blocks: Seq::empty(),
        input_tokens: 0,
        output_tokens: 0,
        payload,
        max_iterations,
        iterations: 0,
        assistant_text: Seq::empty(),
        calls: Seq::empty(),
        next_call: 0,
        current_id: Seq::empty(),
        current_query: Seq::empty(),
        responses: Seq::empty(),
        ends_in_tool_use: false,
        phase: if max_iterations == 0 {
            LoopPhase::Finished
        } else {
            LoopPhase::AwaitingResponse
        },
    }
}

/// Start the search of the next call: emit its server tool use, then wait for
/// the search.
pub open spec fn begin_search(s: LoopState, uuid: Seq<char>) -> LoopState {
    start_search(s, server_tool_id(uuid))
}

/// Start the search of the next call under the server tool id `id`.
pub open spec fn start_search(s: LoopState, id: Seq<char>) -> LoopState {
    let q = query_of(s.calls[s.next_call as int].input);
    LoopState {
        blocks: s.blocks.push(LoopBlockView::ServerToolUse { id, query: q }),
        current_id: id,
        current_query: q,
        phase: LoopPhase::AwaitingSearch,
        ..s
    }
}

/// A response asks for a search.
pub open spec fn response_needs_id(r: KiroResponseView) -> bool {
    web_search_calls(r.tool_calls).len() > 0
}

/// The state after a Kiro response is taken in, before any search starts.
pub open spec fn absorb_response(s: LoopState, r: KiroResponseView) -> LoopState {
    let calls = web_search_calls(r.tool_calls);
    let s1 = LoopState {
        blocks: s.blocks + response_blocks(r),
        input_tokens: s.input_tokens + r.input_tokens,
        output_tokens: s.output_tokens + r.output_tokens,
        iterations: s.iterations + 1,
        assistant_text: r.content,
        calls,
        next_call: 0,
        responses: s.responses.push(r),
        ends_in_tool_use: calls.len() == 0 && r.tool_calls.len() > 0,
        ..s
    };
    if calls.len() == 0 {
        LoopState { phase: LoopPhase::Finished, ..s1 }
    } else {
        s1
    }
}

/// The state after a Kiro response: usage counted, its blocks emitted; done where
/// it calls no `web_search`, else the search of its first call started.
pub open spec fn response_step(s: LoopState, r: KiroResponseView, uuid: Seq<char>) -> LoopState {
    if response_needs_id(r) {
        begin_search(absorb_response(s, r), uuid)
    } else {
        absorb_response(s, r)
    }
}

/// A search outcome is followed by the search of another call.
pub open spec fn search_needs_id(s: LoopState) -> bool {
    s.next_call + 1 < s.calls.len()
}

/// The state after a search outcome is taken in, before another search starts.
pub open spec fn absorb_search(s: LoopState, outcome: Option<Seq<WebSearchResultView>>) -> LoopState {
    let call = s.calls[s.next_call as int];
    let s1 = match outcome {
        None => LoopState {
            blocks: s.blocks.push(LoopBlockView::SearchError { tool_use_id: s.current_id }),
            next_call: s.next_call + 1,
            ..s
        },
        Some(rs) => LoopState {
            blocks: s.blocks.push(
                LoopBlockView::SearchResults { tool_use_id: s.current_id, results: rs },
            ),
            payload: followup_payload(
                s.payload,
                s.assistant_text,
                call.tool_use_id,
                results_text(s.current_query, rs),
            ),
            next_call: s.next_call + 1,
            ..s
        },
    };
    if s1.next_call < s1.calls.len() {
        s1
    } else if s1.iterations < s1.max_iterations {
        LoopState { phase: LoopPhase::AwaitingResponse, ..s1 }
    } else {
        LoopState { phase: LoopPhase::Finished, ..s1 }
    }
}

/// The state after a search: a failure emits an error result and leaves the
/// payload as it was; results are emitted and fed back into the payload. Then
/// the next call is searched, else Kiro is asked again while iterations remain,
/// else the loop is done.
pub open spec fn search_step(s: LoopState, outcome: Option<Seq<WebSearchResultView>>, uuid: Seq<char>) -> LoopState {
    if search_needs_id(s) {
        begin_search(absorb_search(s, outcome), uuid)
    } else {
        absorb_search(s, outcome)
    }
}

/// What the loop asks for in state `s`.
pub open spec fn action_of(s: LoopState) -> LoopActionView {
    match s.phase {
        LoopPhase::AwaitingResponse => LoopActionView::SendRequest(s.payload),
        LoopPhase::AwaitingSearch => LoopActionView::Search(s.current_query),
        LoopPhase::Finished => LoopActionView::Finish,
    }
}

pub open spec fn input_total(rs: Seq<KiroResponseView>) -> int
    decreases rs.len(),
{
    if rs.len() == 0 {
        0
    } else {
        input_total(rs.drop_last()) + rs.last().input_tokens
    }
}

pub open spec fn output_total(rs: Seq<KiroResponseView>) -> int
    decreases rs.len(),
{
    if rs.len() == 0 {
        0
    } else {
        output_total(rs.drop_last()) + rs.last().output_tokens
    }
}

/// `b` is the search result, or search error, for the server tool use `id`.
pub open spec fn is_result_for(b: LoopBlockView, id: Seq<char>) -> bool {
    match b {
        LoopBlockView::SearchResults { tool_use_id, .. } => tool_use_id == id,
        LoopBlockView::SearchError { tool_use_id } => tool_use_id == id,
        _ => false,
    }
}

pub open spec fn is_result_block(b: LoopBlockView) -> bool {
    b is SearchResults || b is SearchError
}

/// Every server tool use is directly followed by its result, and every result
/// directly follows its server tool use.
pub open spec fn blocks_paired(bs: Seq<LoopBlockView>) -> bool {
    &&& forall|i: int|
        0 <= i < bs.len() && (#[trigger] bs[i] is ServerToolUse) ==> i + 1 < bs.len() && is_result_for(
            bs[i + 1],
            bs[i]->ServerToolUse_id,
        )
    &&& forall|i: int|
        0 <= i < bs.len() && is_result_block(#[trigger] bs[i]) ==> 0 < i && bs[i - 1] is ServerToolUse
            && is_result_for(bs[i], bs[i - 1]->ServerToolUse_id)
}

/// What holds of every state of the loop, whatever it waits for.
pub open spec fn loop_base_inv(s: LoopState) -> bool {
    &&& s.iterations <= s.max_iterations
    &&& s.iterations == s.responses.len()
    &&& s.input_tokens == input_total(s.responses)
    &&& s.output_tokens == output_total(s.responses)
    &&& forall|i: int|
        0 <= i < s.blocks.len() && (#[trigger] s.blocks[i]) is ServerToolUse ==> is_server_tool_id(
            s.blocks[i]->ServerToolUse_id,
        )
    &&& forall|i: int| 0 <= i < s.calls.len() ==> (#[trigger] s.calls[i]).name == "web_search"@
}

/// What every state of the loop satisfies.
pub open spec fn loop_inv(s: LoopState) -> bool {
    &&& loop_base_inv(s)
    &&& s.phase is AwaitingResponse ==> s.iterations < s.max_iterations
    &&& s.phase is AwaitingSearch ==> {
        &&& s.next_call < s.calls.len()
        &&& s.blocks.len() > 0
        &&& s.blocks.last() == LoopBlockView::ServerToolUse { id: s.current_id, query: s.current_query }
        &&& s.current_query == query_of(s.calls[s.next_call as int].input)
        &&& blocks_paired(s.blocks.drop_last())
    }
    &&& !(s.phase is AwaitingSearch) ==> blocks_paired(s.blocks)
}


/// Neither a server tool use nor a search result.
pub open spec fn is_plain_block(b: LoopBlockView) -> bool {
    b is Text || b is ToolUse
}

proof fn lemma_paired_append_plain(bs: Seq<LoopBlockView>, extra: Seq<LoopBlockView>)
    requires
        blocks_paired(bs),
        forall|i: int| 0 <= i < extra.len() ==> is_plain_block(#[trigger] extra[i]),
    ensures
        blocks_paired(bs + extra),
{
    let nb = bs + extra;
    assert forall|i: int| 0 <= i < nb.len() && is_result_block(#[trigger] nb[i]) implies 0 < i && nb[i
        - 1] is ServerToolUse && is_result_for(nb[i], nb[i - 1]->ServerToolUse_id) by {
        if i >= bs.len() {
            assert(nb[i] == extra[i - bs.len()]);
            assert(is_plain_block(extra[i - bs.len()]));
        } else {
            assert(nb[i] == bs[i]);
            assert(nb[i - 1] == bs[i - 1]);
        }
    }
    assert forall|i: int| 0 <= i < nb.len() && (#[trigger] nb[i] is ServerToolUse) implies i + 1
        < nb.len() && is_result_for(nb[i + 1], nb[i]->ServerToolUse_id) by {
        if i >= bs.len() {
            assert(nb[i] == extra[i - bs.len()]);
            assert(is_plain_block(extra[i - bs.len()]));
        } else {
            assert(nb[i] == bs[i]);
            assert(nb[i + 1] == bs[i + 1]);
        }
    }
}

/// The blocks of a response are text and tool uses.
proof fn lemma_response_blocks_plain(r: KiroResponseView)
    ensures
        forall|i: int| 0 <= i < response_blocks(r).len() ==> is_plain_block(#[trigger] response_blocks(r)[i]),
{
    let t: Seq<LoopBlockView> = if r.content.len() > 0 {
        seq![LoopBlockView::Text(r.content)]
    } else {
        Seq::empty()
    };
    let u: Seq<LoopBlockView> = if web_search_calls(r.tool_calls).len() == 0 {
        tool_use_blocks(r.tool_calls)
    } else {
        Seq::empty()
    };
    assert forall|i: int| 0 <= i < response_blocks(r).len() implies is_plain_block(#[trigger] response_blocks(r)[i]) by {
        if i < t.len() {
            assert(response_blocks(r)[i] == t[i]);
        } else {
            assert(response_blocks(r)[i] == u[i - t.len()]);
        }
    }
}

proof fn lemma_paired_push_result(bs: Seq<LoopBlockView>, b: LoopBlockView, id: Seq<char>, q: Seq<char>)
    requires
        bs.len() > 0,
        blocks_paired(bs.drop_last()),
        bs.last() == (LoopBlockView::ServerToolUse { id, query: q }),
        is_result_for(b, id),
    ensures
        blocks_paired(bs.push(b)),
{
    let nb = bs.push(b);
    let d = bs.drop_last();
    let n = bs.len() - 1;
    assert forall|i: int| 0 <= i < nb.len() && is_result_block(#[trigger] nb[i]) implies 0 < i && nb[i
        - 1] is ServerToolUse && is_result_for(nb[i], nb[i - 1]->ServerToolUse_id) by {
        if i < n {
            assert(nb[i] == d[i]);
            assert(is_result_block(d[i]));
            assert(nb[i - 1] == d[i - 1]);
        }
    }
    assert forall|i: int| 0 <= i < nb.len() && (#[trigger] nb[i] is ServerToolUse) implies i + 1
        < nb.len() && is_result_for(nb[i + 1], nb[i]->ServerToolUse_id) by {
        if i < n {
            assert(nb[i] == d[i]);
            assert(d[i] is ServerToolUse);
            assert(nb[i + 1] == d[i + 1]);
        }
    }
}

proof fn lemma_totals_push(rs: Seq<KiroResponseView>, r: KiroResponseView)
    ensures
        input_total(rs.push(r)) == input_total(rs) + r.input_tokens,
        output_total(rs.push(r)) == output_total(rs) + r.output_tokens,
{
    assert(rs.push(r).drop_last() =~= rs);
}

/// The loop starts in a state that satisfies its invariant.
pub proof fn law_initial_state(payload: JsonValue, max_iterations: nat)
    ensures
        loop_inv(initial_state(payload, max_iterations)),
{
}

/// Taking in a Kiro response keeps the invariant: the iterations stay within
/// the limit, the token totals are the sums over the responses, server tool uses
/// and their results stay paired, every server tool id is `srvtoolu_` and 24
/// hexadecimal digits.
pub proof fn law_response_step(s: LoopState, r: KiroResponseView, uuid: Seq<char>)
    requires
        loop_inv(s),
        s.phase is AwaitingResponse,
        response_needs_id(r) ==> is_uuid_text(uuid),
    ensures
        loop_inv(response_step(s, r, uuid)),
{
    broadcast use vstd::seq_lib::group_filter_ensures;

    let a = absorb_response(s, r);
    lemma_totals_push(s.responses, r);
    lemma_response_blocks_plain(r);
    lemma_paired_append_plain(s.blocks, response_blocks(r));
    assert forall|i: int| 0 <= i < a.calls.len() implies (#[trigger] a.calls[i]).name == "web_search"@ by {
        let pred = |c: KiroToolUseView| c.name == "web_search"@;
        assert(pred(r.tool_calls.filter(pred)[i]));
    }
    assert forall|i: int| 0 <= i < a.blocks.len() && (#[trigger] a.blocks[i]) is ServerToolUse implies is_server_tool_id(
        a.blocks[i]->ServerToolUse_id,
    ) by {
        if i < s.blocks.len() {
            assert(a.blocks[i] == s.blocks[i]);
        } else {
            assert(a.blocks[i] == response_blocks(r)[i - s.blocks.len()]);
        }
    }
    assert(loop_base_inv(a));
    if response_needs_id(r) {
        lemma_begin_search(a, uuid);
    }
}

/// A response that calls no `web_search` is returned as it is: its text, then
/// one tool use block per tool call, in order; the loop ends, with stop reason
/// `tool_use` where it called tools and `end_turn` where it did not.
pub proof fn law_plain_response(s: LoopState, r: KiroResponseView, uuid: Seq<char>)
    requires
        s.phase is AwaitingResponse,
        web_search_calls(r.tool_calls).len() == 0,
    ensures
        response_step(s, r, uuid).blocks == s.blocks + (if r.content.len() > 0 {
            seq![LoopBlockView::Text(r.content)]
        } else {
            Seq::empty()
        }) + tool_use_blocks(r.tool_calls),
        response_step(s, r, uuid).phase is Finished,
        stop_reason(response_step(s, r, uuid)) == (if r.tool_calls.len() > 0 {
            "tool_use"@
        } else {
            "end_turn"@
        }),
{
    let t: Seq<LoopBlockView> = if r.content.len() > 0 {
        seq![LoopBlockView::Text(r.content)]
    } else {
        Seq::empty()
    };
    assert(s.blocks + response_blocks(r) =~= s.blocks + t + tool_use_blocks(r.tool_calls));
}

/// A response keeps its text as the assistant's text of the loop, whether or
/// not it calls `web_search`.
pub proof fn law_response_text_kept(s: LoopState, r: KiroResponseView, uuid: Seq<char>)
    ensures
        response_step(s, r, uuid).assistant_text == r.content,
        response_step(s, r, uuid).responses == s.responses.push(r),
        response_step(s, r, uuid).payload == s.payload,
{
}

/// A search that answers a response's first `web_search` call feeds back into
/// the next request: the history gains a turn that holds the user's message as
/// it was and the response's own text with that call's id, and the current
/// content becomes the formatted results for the call's query.
pub proof fn law_search_feeds_back(
    s: LoopState,
    r: KiroResponseView,
    uuid: Seq<char>,
    rs: Seq<WebSearchResultView>,
    next_uuid: Seq<char>,
)
    requires
        loop_inv(s),
        s.phase is AwaitingResponse,
        response_needs_id(r),
        is_uuid_text(uuid),
        followup_defined(s.payload),
    ensures
        ({
            let call = web_search_calls(r.tool_calls)[0];
            let s2 = search_step(response_step(s, r, uuid), Some(rs), next_uuid);
            let turn = history_of(s2.payload).last();
            let answer = member(turn, "assistantResponseMessage"@);
            &&& history_of(s2.payload).len() == history_of(s.payload).len() + 1
            &&& history_of(s2.payload).take(history_of(s.payload).len() as int) == history_of(s.payload)
            &&& member(member(turn, "userInputMessage"@), "content"@) == path_get(s.payload, content_path())
            &&& member(answer, "content"@) == JsonValue::Str(r.content)
            &&& member(answer, "toolUses"@) is Array
            &&& member(answer, "toolUses"@)->Array_0.len() == 1
            &&& member(member(answer, "toolUses"@)->Array_0[0], "toolUseId"@) == JsonValue::Str(call.tool_use_id)
            &&& member(member(answer, "toolUses"@)->Array_0[0], "name"@) == JsonValue::Str("web_search"@)
            &&& path_get(s2.payload, content_path()) == JsonValue::Str(results_text(query_of(call.input), rs))
        }),
{
    let s1 = response_step(s, r, uuid);
    law_response_step(s, r, uuid);
    law_search_payload(s1, Some(rs), next_uuid);
    let call = web_search_calls(r.tool_calls)[0];
    assert(s1.calls[0] == call);
    let turn = history_turn(path_get(s.payload, content_path()), r.content, call.tool_use_id);
    let s2 = search_step(s1, Some(rs), next_uuid);
    assert(history_of(s2.payload) == history_of(s.payload).push(turn));
    assert(history_of(s2.payload).last() == turn);
    assert(history_of(s2.payload).take(history_of(s.payload).len() as int) =~= history_of(s.payload));
    reveal_strlit("userInputMessage");
    reveal_strlit("assistantResponseMessage");
    reveal_strlit("content");
    reveal_strlit("toolUses");
    reveal_strlit("toolUseId");
    reveal_strlit("name");
    let tf = match turn {
        JsonValue::Object(f) => f,
        _ => Seq::empty(),
    };
    assert(tf[0].0.len() == 16);
    lemma_member_of_object(tf, "userInputMessage"@, 0);
    lemma_member_of_object(tf, "assistantResponseMessage"@, 1);
    let uf = match tf[0].1 {
        JsonValue::Object(f) => f,
        _ => Seq::empty(),
    };
    lemma_member_of_object(uf, "content"@, 0);
    let af = match tf[1].1 {
        JsonValue::Object(f) => f,
        _ => Seq::empty(),
    };
    assert(af[0].0.len() == 7);
    lemma_member_of_object(af, "content"@, 0);
    lemma_member_of_object(af, "toolUses"@, 1);
    let uses = match af[1].1 {
        JsonValue::Array(items) => items,
        _ => Seq::empty(),
    };
    let cf = match uses[0] {
        JsonValue::Object(f) => f,
        _ => Seq::empty(),
    };
    assert(cf[0].0.len() == 9);
    lemma_member_of_object(cf, "toolUseId"@, 0);
    lemma_member_of_object(cf, "name"@, 1);
}

/// Starting a search keeps the invariant.
proof fn lemma_begin_search(s: LoopState, uuid: Seq<char>)
    requires
        loop_base_inv(s),
        blocks_paired(s.blocks),
        s.next_call < s.calls.len(),
        is_uuid_text(uuid),
    ensures
        loop_inv(begin_search(s, uuid)),
{
    let b = begin_search(s, uuid);
    lemma_server_tool_id_shape(uuid);
    assert(b.blocks.drop_last() =~= s.blocks);
    assert forall|i: int| 0 <= i < b.blocks.len() && (#[trigger] b.blocks[i]) is ServerToolUse implies is_server_tool_id(
        b.blocks[i]->ServerToolUse_id,
    ) by {
        if i < s.blocks.len() {
            assert(b.blocks[i] == s.blocks[i]);
        }
    }
}

/// Taking in a search outcome keeps the invariant.
pub proof fn law_search_step(s: LoopState, outcome: Option<Seq<WebSearchResultView>>, uuid: Seq<char>)
    requires
        loop_inv(s),
        s.phase is AwaitingSearch,
        search_needs_id(s) ==> is_uuid_text(uuid),
    ensures
        loop_inv(search_step(s, outcome, uuid)),
{
    let a = absorb_search(s, outcome);
    let b = match outcome {
        None => LoopBlockView::SearchError { tool_use_id: s.current_id },
        Some(rs) => LoopBlockView::SearchResults { tool_use_id: s.current_id, results: rs },
    };
    assert(a.blocks == s.blocks.push(b));
    lemma_paired_push_result(s.blocks, b, s.current_id, s.current_query);
    assert forall|i: int| 0 <= i < a.blocks.len() && (#[trigger] a.blocks[i]) is ServerToolUse implies is_server_tool_id(
        a.blocks[i]->ServerToolUse_id,
    ) by {
        assert(a.blocks[i] == s.blocks[i]);
    }
    assert(loop_base_inv(a));
    if search_needs_id(s) {
        lemma_begin_search(a, uuid);
    }
}

/// Each step brings the loop closer to its end: a response uses up an
/// iteration; a search outcome leaves the iterations and uses up a call. So the
/// loop asks Kiro at most `max_iterations` times, and ends.
pub proof fn law_progress(s: LoopState, r: KiroResponseView, outcome: Option<Seq<WebSearchResultView>>, uuid: Seq<char>)
    requires
        loop_inv(s),
    ensures
        s.phase is AwaitingResponse ==> response_step(s, r, uuid).iterations == s.iterations + 1
            && response_step(s, r, uuid).iterations <= s.max_iterations,
        s.phase is AwaitingSearch ==> search_step(s, outcome, uuid).iterations == s.iterations
            && search_step(s, outcome, uuid).calls.len() - search_step(s, outcome, uuid).next_call
            < s.calls.len() - s.next_call,
        s.iterations + (if s.phase is AwaitingResponse { 1int } else { 0 }) <= s.max_iterations,
{
}

/// A search outcome's effect on the payload: a failure leaves it as it was;
/// results add one turn to its history, and the formatted results become the
/// current message's content and its one tool result.
pub proof fn law_search_payload(s: LoopState, outcome: Option<Seq<WebSearchResultView>>, uuid: Seq<char>)
    requires
        loop_inv(s),
        s.phase is AwaitingSearch,
        outcome is Some ==> followup_defined(s.payload),
    ensures
        outcome is None ==> search_step(s, outcome, uuid).payload == s.payload,
        outcome matches Some(rs) ==> {
            let p = search_step(s, outcome, uuid).payload;
            let call = s.calls[s.next_call as int];
            let text = results_text(s.current_query, rs);
            &&& history_of(p) == history_of(s.payload).push(
                history_turn(path_get(s.payload, content_path()), s.assistant_text, call.tool_use_id),
            )
            &&& path_get(p, content_path()) == JsonValue::Str(text)
            &&& path_get(p, tool_results_path()) == tool_results_value(call.tool_use_id, text)
            &&& followup_defined(p)
        },
{
    if let Some(rs) = outcome {
        let call = s.calls[s.next_call as int];
        lemma_followup_payload(s.payload, s.assistant_text, call.tool_use_id, results_text(s.current_query, rs));
    }
}

// The Kiro request
/// The URL of Kiro's `generateAssistantResponse` endpoint in `region`.
pub fn kiro_api_url(region: &str) -> (r: String)
    ensures
        r@ == "https://codewhisperer."@ + region@ + ".amazonaws.com/generateAssistantResponse"@,
{
    let mut url = String::new();
    url.append("https://codewhisperer.");
    url.append(region);
    url.append(".amazonaws.com/generateAssistantResponse");
    proof {
        assert(url@ =~= "https://codewhisperer."@ + region@ + ".amazonaws.com/generateAssistantResponse"@);
    }
    url
}

/// The `Authorization` header value for an access token.
pub fn bearer_authorization(access_token: &str) -> (r: String)
    ensures
        r@ == "Bearer "@ + access_token@,
{
    let mut header = String::new();
    header.append("Bearer ");
    header.append(access_token);
    proof {
        assert(header@ =~= "Bearer "@ + access_token@);
    }
    header
}

// The JSON of the emitted blocks
/// One hit of a search, as the client sees it.
pub open spec fn hit_json(r: WebSearchResultView) -> JsonValue {
    JsonValue::Object(
        seq![
            ("type"@, JsonValue::Str("web_search_result"@)),
            ("url"@, JsonValue::Str(r.url)),
            ("title"@, JsonValue::Str(r.title)),
            ("page_age"@, optional_str_json(r.published_date)),
        ],
    )
}

/// A string, or null where there is none.
pub open spec fn optional_str_json(o: Option<Seq<char>>) -> JsonValue {
    match o {
        Some(d) => JsonValue::Str(d),
        None => JsonValue::Null,
    }
}

/// A block as the client sees it.
pub open spec fn block_json(b: LoopBlockView) -> JsonValue {
    match b {
        LoopBlockView::Text(t) => JsonValue::Object(
            seq![("type"@, JsonValue::Str("text"@)), ("text"@, JsonValue::Str(t))],
        ),
        LoopBlockView::ToolUse { id, name, input } => JsonValue::Object(
            seq![
                ("type"@, JsonValue::Str("tool_use"@)),
                ("id"@, JsonValue::Str(id)),
                ("name"@, JsonValue::Str(name)),
                ("input"@, input),
            ],
        ),
        LoopBlockView::ServerToolUse { id, query } => JsonValue::Object(
            seq![
                ("type"@, JsonValue::Str("server_tool_use"@)),
                ("id"@, JsonValue::Str(id)),
                ("name"@, JsonValue::Str("web_search"@)),
                ("input"@, JsonValue::Object(seq![("query"@, JsonValue::Str(query))])),
            ],
        ),
        LoopBlockView::SearchResults { tool_use_id, results } => JsonValue::Object(
            seq![
                ("type"@, JsonValue::Str("web_search_tool_result"@)),
                ("tool_use_id"@, JsonValue::Str(tool_use_id)),
                ("content"@, JsonValue::Array(results.map_values(|r: WebSearchResultView| hit_json(r)))),
            ],
        ),
        LoopBlockView::SearchError { tool_use_id } => JsonValue::Object(
            seq![
                ("type"@, JsonValue::Str("web_search_tool_result"@)),
                ("tool_use_id"@, JsonValue::Str(tool_use_id)),
                (
                    "content"@,
                    JsonValue::Object(
                        seq![
                            ("type"@, JsonValue::Str("web_search_tool_result_error"@)),
                            ("error_code"@, JsonValue::Str("unavailable"@)),
                        ],
                    ),
                ),
            ],
        ),
    }
}

/// A search result block reaches the client as a `web_search_tool_result` for
/// its server tool use whose content holds one `web_search_result` per hit, in
/// order, each with the hit's URL, title and date (null where it has none).
pub proof fn law_search_results_json(tool_use_id: Seq<char>, results: Seq<WebSearchResultView>)
    ensures
        ({
            let j = block_json(LoopBlockView::SearchResults { tool_use_id, results });
            &&& member(j, "type"@) == JsonValue::Str("web_search_tool_result"@)
            &&& member(j, "tool_use_id"@) == JsonValue::Str(tool_use_id)
            &&& member(j, "content"@) is Array
            &&& member(j, "content"@)->Array_0.len() == results.len()
            &&& forall|k: int| 0 <= k < results.len() ==> {
                let hit = #[trigger] member(j, "content"@)->Array_0[k];
                &&& member(hit, "type"@) == JsonValue::Str("web_search_result"@)
                &&& member(hit, "url"@) == JsonValue::Str(results[k].url)
                &&& member(hit, "title"@) == JsonValue::Str(results[k].title)
                &&& member(hit, "page_age"@) == match results[k].published_date {
                    Some(d) => JsonValue::Str(d),
                    None => JsonValue::Null,
                }
            }
        }),
{
    reveal_strlit("type");
    reveal_strlit("tool_use_id");
    reveal_strlit("content");
    reveal_strlit("url");
    reveal_strlit("title");
    reveal_strlit("page_age");
    let j = block_json(LoopBlockView::SearchResults { tool_use_id, results });
    let fields = match j {
        JsonValue::Object(f) => f,
        _ => Seq::empty(),
    };
    assert(fields[0].0.len() == 4 && fields[1].0.len() == 11);
    lemma_member_of_object(fields, "type"@, 0);
    lemma_member_of_object(fields, "tool_use_id"@, 1);
    lemma_member_of_object(fields, "content"@, 2);
    let items = results.map_values(|r: WebSearchResultView| hit_json(r));
    assert(member(j, "content"@) == JsonValue::Array(items));
    assert forall|k: int| 0 <= k < results.len() implies {
        let hit = #[trigger] member(j, "content"@)->Array_0[k];
        &&& member(hit, "type"@) == JsonValue::Str("web_search_result"@)
        &&& member(hit, "url"@) == JsonValue::Str(results[k].url)
        &&& member(hit, "title"@) == JsonValue::Str(results[k].title)
        &&& member(hit, "page_age"@) == match results[k].published_date {
            Some(d) => JsonValue::Str(d),
            None => JsonValue::Null,
        }
    } by {
        let hit = items[k];
        assert(hit == hit_json(results[k]));
        let hf = match hit {
            JsonValue::Object(f) => f,
            _ => Seq::empty(),
        };
        assert(hf[0].0.len() == 4 && hf[1].0.len() == 3 && hf[2].0.len() == 5);
        lemma_member_of_object(hf, "type"@, 0);
        lemma_member_of_object(hf, "url"@, 1);
        lemma_member_of_object(hf, "title"@, 2);
        lemma_member_of_object(hf, "page_age"@, 3);
    }
}

/// A tool use block reaches the client as a `tool_use` with the call's id,
/// name and input.
pub proof fn law_tool_use_json(c: KiroToolUseView)
    ensures
        member(block_json(tool_use_block(c)), "type"@) == JsonValue::Str("tool_use"@),
        member(block_json(tool_use_block(c)), "id"@) == JsonValue::Str(c.tool_use_id),
        member(block_json(tool_use_block(c)), "name"@) == JsonValue::Str(c.name),
        member(block_json(tool_use_block(c)), "input"@) == c.input,
{
    reveal_strlit("type");
    reveal_strlit("id");
    reveal_strlit("name");
    reveal_strlit("input");
    let fields = match block_json(tool_use_block(c)) {
        JsonValue::Object(f) => f,
        _ => Seq::empty(),
    };
    assert(fields[0].0.len() == 4 && fields[1].0.len() == 2 && fields[2].0.len() == 4);
    assert(fields[0].0 != "name"@) by {
        assert(fields[0].0[0] != "name"@[0]);
    }
    lemma_member_of_object(fields, "type"@, 0);
    lemma_member_of_object(fields, "id"@, 1);
    lemma_member_of_object(fields, "name"@, 2);
    lemma_member_of_object(fields, "input"@, 3);
}

fn hit_to_json(r: &WebSearchResult) -> (j: Json)
    ensures
        j@ == hit_json(r@),
{
    let page_age = match &r.published_date {
        Some(d) => Json::Str(d.clone()),
        None => Json::Null,
    };
    assert(page_age@ == optional_str_json(r@.published_date));
    let url = Json::Str(r.url.clone());
    let title = Json::Str(r.title.clone());
    assert(url@ == JsonValue::Str(r@.url));
    assert(title@ == JsonValue::Str(r@.title));
    let j = crate::json::object4(
        "type",
        json_str("web_search_result"),
        "url",
        url,
        "title",
        title,
        "page_age",
        page_age,
    );
    j
}

fn block_to_json(b: &LoopBlock) -> (j: Json)
    ensures
        j@ == block_json(b@),
{
    match b {
        LoopBlock::Text(t) => object2("type", json_str("text"), "text", Json::Str(t.clone())),
        LoopBlock::ToolUse { id, name, input } => crate::json::object4(
            "type",
            json_str("tool_use"),
            "id",
            Json::Str(id.clone()),
            "name",
            Json::Str(name.clone()),
            "input",
            input.deep_clone(),
        ),
        LoopBlock::ServerToolUse { id, query } => crate::json::object4(
            "type",
            json_str("server_tool_use"),
            "id",
            Json::Str(id.clone()),
            "name",
            json_str("web_search"),
            "input",
            object1("query", Json::Str(query.clone())),
        ),
        LoopBlock::SearchResults { tool_use_id, results } => {
            let mut hits: Vec<Json> = Vec::new();
            let mut i: usize = 0;
            while i < results.len()
                invariant
                    i <= results@.len(),
                    hits@.len() == i,
                    forall|k: int| 0 <= k < i ==> #[trigger] hits@[k]@ == hit_json(results@[k]@),
                decreases results@.len() - i,
            {
                hits.push(hit_to_json(&results[i]));
                i = i + 1;
            }
            proof {
                crate::json::lemma_items_view(hits@);
                assert forall|k: int| 0 <= k < hits@.len() implies #[trigger] crate::json::items_view(hits@)[k]
                    == results_view(results@).map_values(|r: WebSearchResultView| hit_json(r))[k] by {
                    assert(results_view(results@)[k] == results@[k]@);
                    assert(hits@[k]@ == hit_json(results@[k]@));
                }
                assert(crate::json::items_view(hits@) =~= results_view(results@).map_values(
                    |r: WebSearchResultView| hit_json(r),
                ));
            }
            object3(
                "type",
                json_str("web_search_tool_result"),
                "tool_use_id",
                Json::Str(tool_use_id.clone()),
                "content",
                Json::Array(hits),
            )
        },
        LoopBlock::SearchError { tool_use_id } => object3(
            "type",
            json_str("web_search_tool_result"),
            "tool_use_id",
            Json::Str(tool_use_id.clone()),
            "content",
            object2(
                "type",
                json_str("web_search_tool_result_error"),
                "error_code",
                json_str("unavailable"),
            ),
        ),
    }
}

/// Appends one tool use block per call.
fn push_tool_uses(blocks: &mut Vec<LoopBlock>, calls: &Vec<KiroToolUse>)
    ensures
        blocks_view(final(blocks)@) == blocks_view(old(blocks)@) + tool_use_blocks(tool_uses_view(calls@)),
{
    let ghost start = blocks_view(blocks@);
    let mut i: usize = 0;
    while i < calls.len()
        invariant
            i <= calls@.len(),
            blocks_view(blocks@) == start + tool_use_blocks(tool_uses_view(calls@).take(i as int)),
        decreases calls@.len() - i,
    {
        let c = &calls[i];
        let ghost prev = blocks@;
        blocks.push(LoopBlock::ToolUse {
            id: c.tool_use_id.clone(),
            name: c.name.clone(),
            input: c.input.deep_clone(),
        });
        proof {
            let v = tool_uses_view(calls@);
            assert(blocks_view(blocks@) =~= blocks_view(prev).push(tool_use_block(calls@[i as int]@)));
            assert(v.take(i + 1) =~= v.take(i as int).push(calls@[i as int]@));
            assert(tool_use_blocks(v.take(i + 1)) =~= tool_use_blocks(v.take(i as int)).push(
                tool_use_block(calls@[i as int]@),
            ));
            assert(blocks_view(blocks@) =~= start + tool_use_blocks(v.take(i + 1)));
        }
        i = i + 1;
    }
    assert(tool_uses_view(calls@).take(i as int) =~= tool_uses_view(calls@));
}

/// Result of the web search agentic loop.
#[derive(Debug, Clone, PartialEq)]
pub struct WebSearchLoopResult {
    pub content_blocks: Vec<Json>,
    pub stop_reason: String,
    pub input_tokens: i32,
    pub output_tokens: i32,
}

pub open spec fn jsons_view(v: Seq<Json>) -> Seq<JsonValue> {
    v.map_values(|j: Json| j@)
}

pub open spec fn outcome_view(o: Option<Vec<WebSearchResult>>) -> Option<Seq<WebSearchResultView>> {
    match o {
        Some(rs) => Some(results_view(rs@)),
        None => None,
    }
}

/// The token totals stay within `i32` when the response is counted.
pub open spec fn tokens_fit(s: LoopState, r: KiroResponseView) -> bool {
    &&& i32::MIN <= s.input_tokens + r.input_tokens <= i32::MAX
    &&& i32::MIN <= s.output_tokens + r.output_tokens <= i32::MAX
}

/// The stop reason of the result: `tool_use` where the last response called
/// tools other than `web_search` and none of `web_search`, else `end_turn`.
pub open spec fn stop_reason(s: LoopState) -> Seq<char> {
    if s.ends_in_tool_use {
        "tool_use"@
    } else {
        "end_turn"@
    }
}

/// The agentic web search loop, as a state machine: its driver performs each
/// action (a Kiro request or a web search) and hands back what came of it.
pub struct WebSearchLoop {
    blocks: Vec<LoopBlock>,
    input_tokens: i32,
    output_tokens: i32,
    payload: Json,
    max_iterations: usize,
    iterations: usize,
    assistant_text: String,
    calls: Vec<KiroToolUse>,
    next_call: usize,
    current_id: String,
    current_query: String,
    responses: Ghost<Seq<KiroResponseView>>,
    ends_in_tool_use: bool,
    phase: LoopPhase,
}

impl View for WebSearchLoop {
    type V = LoopState;

    closed spec fn view(&self) -> LoopState {
        LoopState {
            blocks: blocks_view(self.blocks@),
            input_tokens: self.input_tokens as int,
            output_tokens: self.output_tokens as int,
            payload: self.payload@,
            max_iterations: self.max_iterations as nat,
            iterations: self.iterations as nat,
            assistant_text: self.assistant_text@,
            calls: tool_uses_view(self.calls@),
            next_call: self.next_call as nat,
            current_id: self.current_id@,
            current_query: self.current_query@,
            responses: self.responses@,
            ends_in_tool_use: self.ends_in_tool_use,
            phase: self.phase,
        }
    }
}

impl WebSearchLoop {
    /// A loop that starts from `initial_payload` and asks Kiro at most
    /// `max_iterations` times.
    pub fn new(initial_payload: &Json, max_iterations: usize) -> (r: Self)
        ensures
            r@ == initial_state(initial_payload@, max_iterations as nat),
            loop_inv(r@),
    {
        let r = WebSearchLoop {
            blocks: Vec::new(),
            input_tokens: 0,
            output_tokens: 0,
            payload: initial_payload.deep_clone(),
            max_iterations,
            iterations: 0,
            assistant_text: String::new(),
            calls: Vec::new(),
            next_call: 0,
            current_id: String::new(),
            current_query: String::new(),
            responses: Ghost(Seq::empty()),
            ends_in_tool_use: false,
            phase: if max_iterations == 0 {
                LoopPhase::Finished
            } else {
                LoopPhase::AwaitingResponse
            },
        };
        proof {
            assert(blocks_view(r.blocks@) =~= Seq::empty());
            assert(tool_uses_view(r.calls@) =~= Seq::empty());
            law_initial_state(initial_payload@, max_iterations as nat);
        }
        r
    }

    /// What the loop waits for.
    pub fn phase(&self) -> (r: LoopPhase)
        ensures
            r == self@.phase,
    {
        self.phase
    }

    /// What the loop asks for now.
    pub fn next_action(&self) -> (a: LoopAction)
        ensures
            a@ == action_of(self@),
    {
        match self.phase {
            LoopPhase::AwaitingResponse => LoopAction::SendRequest(self.payload.deep_clone()),
            LoopPhase::AwaitingSearch => LoopAction::Search(self.current_query.clone()),
            LoopPhase::Finished => LoopAction::Finish,
        }
    }

    /// The response can be counted without the token totals leaving `i32`.
    pub fn tokens_fit(&self, resp: &KiroResponse) -> (r: bool)
        ensures
            r == tokens_fit(self@, resp@),
    {
        match &resp.usage {
            None => true,
            Some(u) => self.input_tokens.checked_add(u.input_tokens).is_some()
                && self.output_tokens.checked_add(u.output_tokens).is_some(),
        }
    }

    /// Search results can be taken in: the follow-up can be built from the
    /// payload (`followup_defined`).
    pub fn accepts_results(&self) -> (r: bool)
        ensures
            r == followup_defined(self@.payload),
    {
        can_build_followup(&self.payload)
    }

    fn start_search(&mut self, id: String) -> (a: LoopAction)
        requires
            old(self)@.next_call < old(self)@.calls.len(),
        ensures
            final(self)@ == start_search(old(self)@, id@),
            a@ == action_of(final(self)@),
    {
        let query = search_query(&self.calls[self.next_call].input);
        self.current_id = id.clone();
        self.current_query = query.clone();
        self.blocks.push(LoopBlock::ServerToolUse { id, query });
        self.phase = LoopPhase::AwaitingSearch;
        proof {
            assert(blocks_view(self.blocks@) =~= blocks_view(old(self).blocks@).push(
                LoopBlockView::ServerToolUse { id: self.current_id@, query: self.current_query@ },
            ));
        }
        LoopAction::Search(self.current_query.clone())
    }

    /// Takes in a response; whether a search is to start is returned.
    fn absorb_response(&mut self, resp: KiroResponse) -> (needs_search: bool)
        requires
            loop_inv(old(self)@),
            old(self)@.phase is AwaitingResponse,
            tokens_fit(old(self)@, resp@),
        ensures
            final(self)@ == absorb_response(old(self)@, resp@),
            needs_search == response_needs_id(resp@),
            final(self)@.next_call < final(self)@.calls.len() <==> needs_search,
    {
        let ghost r = resp@;
        if let Some(u) = &resp.usage {
            self.input_tokens = self.input_tokens + u.input_tokens;
            self.output_tokens = self.output_tokens + u.output_tokens;
        }
        let ghost blocks_before = blocks_view(self.blocks@);
        if !resp.content.as_str().is_empty() {
            self.blocks.push(LoopBlock::Text(resp.content.clone()));
        }
        let ghost text_blocks: Seq<LoopBlockView> = if r.content.len() > 0 {
            seq![LoopBlockView::Text(r.content)]
        } else {
            Seq::empty()
        };
        assert(blocks_view(self.blocks@) =~= blocks_before + text_blocks);
        let calls = select_web_search_calls(&resp.tool_calls);
        let needs_search = calls.len() > 0;
        if !needs_search {
            push_tool_uses(&mut self.blocks, &resp.tool_calls);
        }
        proof {
            let tool_blocks: Seq<LoopBlockView> = if !needs_search {
                tool_use_blocks(r.tool_calls)
            } else {
                Seq::empty()
            };
            assert(response_blocks(r) == text_blocks + tool_blocks);
            assert(blocks_view(self.blocks@) =~= blocks_before + response_blocks(r));
        }
        self.ends_in_tool_use = !needs_search && resp.tool_calls.len() > 0;
        self.iterations = self.iterations + 1;
        self.assistant_text = resp.content;
        self.responses = Ghost(self.responses@.push(r));
        self.calls = calls;
        self.next_call = 0;
        if !needs_search {
            self.phase = LoopPhase::Finished;
        }
        needs_search
    }

    /// Takes in a Kiro response, with the UUID text that a new server tool id is
    /// made from where a search starts.
    pub fn on_response_using(&mut self, resp: KiroResponse, uuid: &str) -> (a: LoopAction)
        requires
            loop_inv(old(self)@),
            old(self)@.phase is AwaitingResponse,
            tokens_fit(old(self)@, resp@),
            response_needs_id(resp@) ==> is_uuid_text(uuid@),
        ensures
            final(self)@ == response_step(old(self)@, resp@, uuid@),
            a@ == action_of(final(self)@),
            loop_inv(final(self)@),
    {
        let ghost r = resp@;
        proof {
            law_response_step(old(self)@, r, uuid@);
        }
        if self.absorb_response(resp) {
            let id = server_tool_id_from_uuid(uuid);
            self.start_search(id)
        } else {
            LoopAction::Finish
        }
    }

    /// Records a search outcome: its block, and for results the follow-up payload.
    fn record_outcome(&mut self, outcome: Option<Vec<WebSearchResult>>)
        requires
            loop_inv(old(self)@),
            old(self)@.phase is AwaitingSearch,
            outcome is Some ==> followup_defined(old(self)@.payload),
        ensures
            final(self)@ == (match outcome_view(outcome) {
                None => LoopState {
                    blocks: old(self)@.blocks.push(
                        LoopBlockView::SearchError { tool_use_id: old(self)@.current_id },
                    ),
                    ..old(self)@
                },
                Some(rs) => LoopState {
                    blocks: old(self)@.blocks.push(
                        LoopBlockView::SearchResults { tool_use_id: old(self)@.current_id, results: rs },
                    ),
                    payload: followup_payload(
                        old(self)@.payload,
                        old(self)@.assistant_text,
                        old(self)@.calls[old(self)@.next_call as int].tool_use_id,
                        results_text(old(self)@.current_query, rs),
                    ),
                    ..old(self)@
                },
            }),
            final(self).next_call == old(self).next_call,
            final(self).calls@.len() == old(self).calls@.len(),
            final(self).iterations == old(self).iterations,
            final(self).max_iterations == old(self).max_iterations,
    {
        match outcome {
            None => {
                self.blocks.push(LoopBlock::SearchError { tool_use_id: self.current_id.clone() });
                proof {
                    assert(blocks_view(self.blocks@) =~= blocks_view(old(self).blocks@).push(
                        LoopBlockView::SearchError { tool_use_id: old(self)@.current_id },
                    ));
                }
            },
            Some(results) => {
                let ghost rs = results_view(results@);
                let text = ExaClient::format_results_as_text(
                    self.current_query.as_str(),
                    results.as_slice(),
                );
                let new_payload = build_followup_payload(
                    &self.payload,
                    self.assistant_text.as_str(),
                    self.calls[self.next_call].tool_use_id.as_str(),
                    text.as_str(),
                );
                self.payload = new_payload;
                self.blocks.push(
                    LoopBlock::SearchResults { tool_use_id: self.current_id.clone(), results },
                );
                proof {
                    assert(blocks_view(self.blocks@) =~= blocks_view(old(self).blocks@).push(
                        LoopBlockView::SearchResults { tool_use_id: old(self)@.current_id, results: rs },
                    ));
                }
            },
        }
    }

    /// Takes in a search outcome; whether another search is to start is returned.
    fn absorb_search(&mut self, outcome: Option<Vec<WebSearchResult>>) -> (needs_search: bool)
        requires
            loop_inv(old(self)@),
            old(self)@.phase is AwaitingSearch,
            outcome is Some ==> followup_defined(old(self)@.payload),
        ensures
            final(self)@ == absorb_search(old(self)@, outcome_view(outcome)),
            needs_search == search_needs_id(old(self)@),
            final(self)@.next_call < final(self)@.calls.len() <==> needs_search,
    {
        let n = self.calls.len();
        assert(tool_uses_view(self.calls@).len() == self.calls@.len());
        assert(self.next_call < n);
        self.record_outcome(outcome);
        self.next_call = self.next_call + 1;
        let needs_search = self.next_call < self.calls.len();
        if !needs_search {
            if self.iterations < self.max_iterations {
                self.phase = LoopPhase::AwaitingResponse;
            } else {
                self.phase = LoopPhase::Finished;
            }
        }
        needs_search
    }

    /// Takes in the outcome of the current search (`None` for a failed search),
    /// with the UUID text that a new server tool id is made from where another
    /// search starts.
    pub fn on_search_result_using(&mut self, outcome: Option<Vec<WebSearchResult>>, uuid: &str) -> (a: LoopAction)
        requires
            loop_inv(old(self)@),
            old(self)@.phase is AwaitingSearch,
            outcome is Some ==> followup_defined(old(self)@.payload),
            search_needs_id(old(self)@) ==> is_uuid_text(uuid@),
        ensures
            final(self)@ == search_step(old(self)@, outcome_view(outcome), uuid@),
            a@ == action_of(final(self)@),
            loop_inv(final(self)@),
    {
        let ghost o = outcome_view(outcome);
        proof {
            law_search_step(old(self)@, o, uuid@);
        }
        if self.absorb_search(outcome) {
            let id = server_tool_id_from_uuid(uuid);
            self.start_search(id)
        } else {
            self.next_action()
        }
    }

    /// The result: the emitted blocks as JSON, the stop reason, and the token
    /// totals.
    pub fn into_result(self) -> (r: WebSearchLoopResult)
        ensures
            jsons_view(r.content_blocks@) == self@.blocks.map_values(|b: LoopBlockView| block_json(b)),
            r.stop_reason@ == stop_reason(self@),
            r.input_tokens == self@.input_tokens,
            r.output_tokens == self@.output_tokens,
    {
        let mut content_blocks: Vec<Json> = Vec::new();
        let mut i: usize = 0;
        while i < self.blocks.len()
            invariant
                i <= self.blocks@.len(),
                content_blocks@.len() == i,
                forall|k: int| 0 <= k < i ==> #[trigger] content_blocks@[k]@ == block_json(self.blocks@[k]@),
            decreases self.blocks@.len() - i,
        {
            content_blocks.push(block_to_json(&self.blocks[i]));
            i = i + 1;
        }
        proof {
            assert(jsons_view(content_blocks@) =~= self@.blocks.map_values(|b: LoopBlockView| block_json(b)));
        }
        let stop_reason = if self.ends_in_tool_use {
            "tool_use".to_owned()
        } else {
            "end_turn".to_owned()
        };
        WebSearchLoopResult {
            content_blocks,
            stop_reason,
            input_tokens: self.input_tokens,
            output_tokens: self.output_tokens,
        }
    }
}

} // verus!
