//! One handler per supported action, each a transformation from a message
//! and the store to a response or a string-described failure, and the
//! dispatcher that routes a message by its `Action` tag and converts every
//! failure into an error response.

use vstd::prelude::*;
use vstd::string::StrSliceExecFns;
use vstd::string::StringExecFns;
use crate::json::{json_of, snapshot_to_json};
use crate::message::{msg_tag, reply_to, AOMessage, AOResponse};
use crate::store::{key_len_err, value_len_err, ProcessState};
use crate::strutil::{dec_rep, str_eq, usize_to_string};

verus! {

/// The failure text when a message carries no `Action` tag.
pub open spec fn action_required() -> Seq<char> {
    "Action is required"@
}

/// The failure text when an action needs a `Key` tag and the message has none.
pub open spec fn key_required() -> Seq<char> {
    "Key is required"@
}

/// The failure text when `Set` finds no `data` field to store.
pub open spec fn value_required() -> Seq<char> {
    "Value is required"@
}

/// The error-response text for a key with characters outside the accepted set.
pub open spec fn invalid_key_err() -> Seq<char> {
    "Invalid key format. Use alphanumeric characters, underscores, and hyphens only"@
}

/// The Info greeting, with the entry count rendered in decimal.
pub open spec fn info_msg(n: nat) -> Seq<char> {
    "Hello from AO Process (Rust)! State entries: "@ + dec_rep(n)
}

/// The Set confirmation text.
pub open spec fn set_ok_msg(k: Seq<char>, v: Seq<char>) -> Seq<char> {
    "Successfully set "@ + k + " to "@ + v
}

/// The Remove confirmation text for a key that was present.
pub open spec fn removed_msg(k: Seq<char>) -> Seq<char> {
    "Successfully removed "@ + k
}

/// The Remove text for a key that was absent.
pub open spec fn not_found_msg(k: Seq<char>) -> Seq<char> {
    "Key "@ + k + " not found"@
}

/// The error-response text for an unrecognized action tag, enumerating the
/// known actions.
pub open spec fn unknown_action_msg(a: Seq<char>) -> Seq<char> {
    "Unknown action: "@ + a + ". Available actions: Info, Set, Get, List, Remove, Clear"@
}

/// A character accepted in a key: ASCII alphanumeric, underscore or hyphen.
pub open spec fn is_key_char(c: char) -> bool {
    ('A' as u32) <= (c as u32) && (c as u32) <= ('Z' as u32) || ('a' as u32) <= (c as u32) && (
    c as u32) <= ('z' as u32) || ('0' as u32) <= (c as u32) && (c as u32) <= ('9' as u32) || c
        == '_' || c == '-'
}

/// Every character of the key is accepted.
pub open spec fn valid_key_chars(k: Seq<char>) -> bool {
    forall|i: int| 0 <= i < k.len() ==> is_key_char(#[trigger] k[i])
}

fn key_char_ok(c: char) -> (r: bool)
    ensures
        r == is_key_char(c),
{
    ('A' as u32) <= (c as u32) && (c as u32) <= ('Z' as u32) || ('a' as u32) <= (c as u32) && (
    c as u32) <= ('z' as u32) || ('0' as u32) <= (c as u32) && (c as u32) <= ('9' as u32) || c
        == '_' || c == '-'
}

fn key_chars_ok(key: &str) -> (r: bool)
    ensures
        r == valid_key_chars(key@),
{
    let n = key.unicode_len();
    let mut i: usize = 0;
    while i < n
        invariant
            n == key@.len(),
            i <= n,
            forall|j: int| 0 <= j < i ==> is_key_char(#[trigger] key@[j]),
        decreases n - i,
    {
        if !key_char_ok(key.get_char(i)) {
            return false;
        }
        i += 1;
    }
    true
}

/// A response with the given recipient, response-type tag and payload, and
/// no extension fields.
pub open spec fn resp_shape(
    r: AOResponse,
    target: Seq<char>,
    action: Seq<char>,
    data: Seq<char>,
) -> bool {
    r.target@ == target && r.action@ == action && r.data@ == data && r.extra_fields@.len() == 0
}

/// What Info returns: a greeting carrying the entry count of the store `m`.
pub open spec fn info_post(
    msg: &AOMessage,
    m: Map<Seq<char>, Seq<char>>,
    r: Result<AOResponse, String>,
) -> bool {
    r matches Ok(resp) && resp_shape(resp, reply_to(msg), "Info-Response"@, info_msg(m.dom().len()))
}

/// What Set does: taking the store from `om` to `nm`, it requires a `Key`
/// tag and a `data` field, answers a bad key format with an error response,
/// propagates the store's length validation as failures, and otherwise
/// inserts and confirms.
pub open spec fn set_post(
    msg: &AOMessage,
    om: Map<Seq<char>, Seq<char>>,
    nm: Map<Seq<char>, Seq<char>>,
    r: Result<AOResponse, String>,
) -> bool {
    match msg_tag(msg, "Key"@) {
        None => r matches Err(e) && e@ == key_required() && nm == om,
        Some(k) => match msg.data {
            None => r matches Err(e) && e@ == value_required() && nm == om,
            Some(v) => {
                if !valid_key_chars(k) {
                    r matches Ok(resp) && resp_shape(resp, reply_to(msg), "Error"@, invalid_key_err())
                        && nm == om
                } else if k.len() == 0 || k.len() > 64 {
                    r matches Err(e) && e@ == key_len_err() && nm == om
                } else if v@.len() > 1000 {
                    r matches Err(e) && e@ == value_len_err() && nm == om
                } else {
                    r matches Ok(resp) && resp_shape(
                        resp,
                        reply_to(msg),
                        "Set-Response"@,
                        set_ok_msg(k, v@),
                    ) && nm == om.insert(k, v@)
                }
            },
        },
    }
}

/// What Get returns: the stored value, or the literal "Not found" for an
/// absent key, with the requested key echoed in the extension map.
pub open spec fn get_post(
    msg: &AOMessage,
    m: Map<Seq<char>, Seq<char>>,
    r: Result<AOResponse, String>,
) -> bool {
    match msg_tag(msg, "Key"@) {
        None => r matches Err(e) && e@ == key_required(),
        Some(k) => r matches Ok(resp) && resp.target@ == reply_to(msg) && resp.action@
            == "Get-Response"@ && resp.data@ == (if m.contains_key(k) {
            m[k]
        } else {
            "Not found"@
        }) && resp.extra_fields@.len() == 1 && resp.extra_fields@[0].0@ == "Key"@
            && resp.extra_fields@[0].1@ == k,
    }
}

/// What List returns: the snapshot of `m` as text, always successfully.
pub open spec fn list_post(
    msg: &AOMessage,
    m: Map<Seq<char>, Seq<char>>,
    r: Result<AOResponse, String>,
) -> bool {
    r matches Ok(resp) && resp_shape(resp, reply_to(msg), "List-Response"@, json_of(m))
}

/// What Remove does: taking the store from `om` to `nm`, it requires a
/// `Key` tag, removes the key, and says whether it was there.
pub open spec fn remove_post(
    msg: &AOMessage,
    om: Map<Seq<char>, Seq<char>>,
    nm: Map<Seq<char>, Seq<char>>,
    r: Result<AOResponse, String>,
) -> bool {
    match msg_tag(msg, "Key"@) {
        None => r matches Err(e) && e@ == key_required() && nm == om,
        Some(k) => r matches Ok(resp) && nm == om.remove(k) && resp_shape(
            resp,
            reply_to(msg),
            "Remove-Response"@,
            if om.contains_key(k) {
                removed_msg(k)
            } else {
                not_found_msg(k)
            },
        ),
    }
}

/// What Clear does: the store ends empty, with a fixed confirmation.
pub open spec fn clear_post(
    msg: &AOMessage,
    nm: Map<Seq<char>, Seq<char>>,
    r: Result<AOResponse, String>,
) -> bool {
    r matches Ok(resp) && resp_shape(resp, reply_to(msg), "Clear-Response"@,
    "State cleared successfully"@) && nm == Map::<Seq<char>, Seq<char>>::empty()
}

/// An action tag one of the handlers answers to.
pub open spec fn known_action(a: Seq<char>) -> bool {
    a == "Info"@ || a == "Set"@ || a == "Get"@ || a == "List"@ || a == "Remove"@ || a == "Clear"@
}

/// The full contract of routing one message: taking the store from `om` to
/// `nm`, the result is the routed handler's, a failure if the `Action` tag
/// is missing, or an error response enumerating the known actions if it is
/// unrecognized.
pub open spec fn message_post(
    msg: &AOMessage,
    om: Map<Seq<char>, Seq<char>>,
    nm: Map<Seq<char>, Seq<char>>,
    r: Result<AOResponse, String>,
) -> bool {
    match msg_tag(msg, "Action"@) {
        None => r matches Err(e) && e@ == action_required() && nm == om,
        Some(a) => {
            if a == "Info"@ {
                nm == om && info_post(msg, om, r)
            } else if a == "Set"@ {
                set_post(msg, om, nm, r)
            } else if a == "Get"@ {
                nm == om && get_post(msg, om, r)
            } else if a == "List"@ {
                nm == om && list_post(msg, om, r)
            } else if a == "Remove"@ {
                remove_post(msg, om, nm, r)
            } else if a == "Clear"@ {
                clear_post(msg, nm, r)
            } else {
                nm == om && (r matches Ok(resp) && resp_shape(
                    resp,
                    reply_to(msg),
                    "Error"@,
                    unknown_action_msg(a),
                ))
            }
        },
    }
}

/// Returns the entry count embedded in a greeting.
pub fn handle_info(msg: &AOMessage, state: &ProcessState) -> (r: Result<AOResponse, String>)
    requires
        state.wf(),
    ensures
        info_post(msg, state@, r),
{
    let from = msg.reply_target();
    let n = state.size();
    let mut data = String::from_str("Hello from AO Process (Rust)! State entries: ");
    let num = usize_to_string(n);
    data.append(num.as_str());
    Ok(AOResponse::new(from.as_str(), "Info-Response", data.as_str()))
}

/// Validates the key's character set, then stores the message's data under
/// the key.
pub fn handle_set(msg: &AOMessage, state: &mut ProcessState) -> (r: Result<AOResponse, String>)
    requires
        old(state).wf(),
    ensures
        final(state).wf(),
        set_post(msg, old(state)@, final(state)@, r),
{
    let from = msg.reply_target();
    let key = match msg.tag_value("Key") {
        None => {
            return Err(String::from_str("Key is required"));
        },
        Some(k) => k,
    };
    let value = match msg.data.as_ref() {
        None => {
            return Err(String::from_str("Value is required"));
        },
        Some(v) => v,
    };
    if !key_chars_ok(key.as_str()) {
        return Ok(
            AOResponse::error(
                from.as_str(),
                "Invalid key format. Use alphanumeric characters, underscores, and hyphens only",
            ),
        );
    }
    match state.set(key.as_str(), value.as_str()) {
        Err(e) => Err(e),
        Ok(_) => {
            let mut data = String::from_str("Successfully set ");
            data.append(key.as_str());
            data.append(" to ");
            data.append(value.as_str());
            Ok(AOResponse::new(from.as_str(), "Set-Response", data.as_str()))
        },
    }
}

/// Looks the key up, substituting "Not found" for an absent one.
pub fn handle_get(msg: &AOMessage, state: &ProcessState) -> (r: Result<AOResponse, String>)
    requires
        state.wf(),
    ensures
        get_post(msg, state@, r),
{
    let from = msg.reply_target();
    let key = match msg.tag_value("Key") {
        None => {
            return Err(String::from_str("Key is required"));
        },
        Some(k) => k,
    };
    let value = match state.get(key.as_str()) {
        Some(v) => v,
        None => String::from_str("Not found"),
    };
    Ok(AOResponse::new(from.as_str(), "Get-Response", value.as_str()).with_field(
        "Key",
        key.as_str(),
    ))
}

/// Encodes the full store snapshot and returns it as the response data.
pub fn handle_list(msg: &AOMessage, state: &ProcessState) -> (r: Result<AOResponse, String>)
    requires
        state.wf(),
    ensures
        list_post(msg, state@, r),
{
    let from = msg.reply_target();
    let snapshot = state.list();
    let json = snapshot_to_json(&snapshot).unwrap();
    Ok(AOResponse::new(from.as_str(), "List-Response", json.as_str()))
}

/// Removes the key; the response text says whether it was there.
pub fn handle_remove(msg: &AOMessage, state: &mut ProcessState) -> (r: Result<AOResponse, String>)
    requires
        old(state).wf(),
    ensures
        final(state).wf(),
        remove_post(msg, old(state)@, final(state)@, r),
{
    let from = msg.reply_target();
    let key = match msg.tag_value("Key") {
        None => {
            return Err(String::from_str("Key is required"));
        },
        Some(k) => k,
    };
    let removed = state.remove(key.as_str());
    let data = if removed {
        let mut d = String::from_str("Successfully removed ");
        d.append(key.as_str());
        d
    } else {
        let mut d = String::from_str("Key ");
        d.append(key.as_str());
        d.append(" not found");
        d
    };
    Ok(AOResponse::new(from.as_str(), "Remove-Response", data.as_str()))
}

/// Empties the store.
pub fn handle_clear(msg: &AOMessage, state: &mut ProcessState) -> (r: Result<AOResponse, String>)
    requires
        old(state).wf(),
    ensures
        final(state).wf(),
        clear_post(msg, final(state)@, r),
{
    let from = msg.reply_target();
    state.clear();
    Ok(AOResponse::new(from.as_str(), "Clear-Response", "State cleared successfully"))
}

/// Routes a message by its `Action` tag to the matching handler.
pub fn handle_message(msg: &AOMessage, state: &mut ProcessState) -> (r: Result<AOResponse, String>)
    requires
        old(state).wf(),
    ensures
        final(state).wf(),
        message_post(msg, old(state)@, final(state)@, r),
{
    let action = match msg.tag_value("Action") {
        None => {
            return Err(String::from_str("Action is required"));
        },
        Some(a) => a,
    };
    if str_eq(action.as_str(), "Info") {
        handle_info(msg, state)
    } else if str_eq(action.as_str(), "Set") {
        handle_set(msg, state)
    } else if str_eq(action.as_str(), "Get") {
        handle_get(msg, state)
    } else if str_eq(action.as_str(), "List") {
        handle_list(msg, state)
    } else if str_eq(action.as_str(), "Remove") {
        handle_remove(msg, state)
    } else if str_eq(action.as_str(), "Clear") {
        handle_clear(msg, state)
    } else {
        let from = msg.reply_target();
        let mut text = String::from_str("Unknown action: ");
        text.append(action.as_str());
        text.append(". Available actions: Info, Set, Get, List, Remove, Clear");
        Ok(AOResponse::error(from.as_str(), text.as_str()))
    }
}

/// The routed result, with any failure rendered as an error response.
pub open spec fn dispatch_post(
    msg: &AOMessage,
    om: Map<Seq<char>, Seq<char>>,
    nm: Map<Seq<char>, Seq<char>>,
    r: AOResponse,
) -> bool {
    exists|h: Result<AOResponse, String>|
        #[trigger] message_post(msg, om, nm, h) && match h {
            Ok(resp) => r == resp,
            Err(e) => resp_shape(r, reply_to(msg), "Error"@, e@),
        }
}

/// Routes a message and never lets a failure propagate: every failure is
/// converted into an error response addressed to the sender.
pub fn dispatch(msg: &AOMessage, state: &mut ProcessState) -> (r: AOResponse)
    requires
        old(state).wf(),
    ensures
        final(state).wf(),
        r.target@ == reply_to(msg),
        dispatch_post(msg, old(state)@, final(state)@, r),
        match msg_tag(msg, "Action"@) {
            None => r.action@ == "Error"@ && r.data@ == action_required() && final(state)@ == old(
                state,
            )@,
            Some(a) => !known_action(a) ==> r.action@ == "Error"@ && r.data@
                == unknown_action_msg(a) && final(state)@ == old(state)@,
        },
{
    let ghost om = state@;
    match handle_message(msg, state) {
        Ok(resp) => {
            proof {
                let h = Ok::<AOResponse, String>(resp);
                assert(message_post(msg, om, state@, h));
            }
            resp
        },
        Err(e) => {
            let from = msg.reply_target();
            let r = AOResponse::error(from.as_str(), e.as_str());
            proof {
                let h = Err::<AOResponse, String>(e);
                assert(message_post(msg, om, state@, h));
            }
            r
        },
    }
}

/// The full store snapshot encoded as text; an empty store encodes as the
/// empty mapping.
pub fn get_state(state: &ProcessState) -> (r: String)
    requires
        state.wf(),
    ensures
        r@ == json_of(state@),
        state@ == Map::<Seq<char>, Seq<char>>::empty() ==> r@ == "{}"@,
{
    let snapshot = state.list();
    snapshot_to_json(&snapshot).unwrap()
}

/// Empties the store and reports success.
pub fn clear_state(state: &mut ProcessState) -> (r: bool)
    requires
        old(state).wf(),
    ensures
        final(state).wf(),
        final(state)@ == Map::<Seq<char>, Seq<char>>::empty(),
        r,
{
    state.clear();
    true
}

} // verus!
