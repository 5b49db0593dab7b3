//! The herdr side: the socket protocol's requests and replies, and the traits
//! through which the watcher reaches herdr.
pub mod events;
pub mod rpc;

pub use events::{PollOutcome, Wake, Waiter};
pub use rpc::{HerdrError, Json, PaneState, Rpc, SocketRpc};

use vstd::prelude::*;

use rpc::{field, json_value, parse_context, str_field, string_of};

verus! {

/// The pane an action is about: `HERDR_PANE_ID` when it is set and not empty,
/// else the string `focused_pane_id` of the plugin context.
pub open spec fn chosen_pane(pane_env: Option<Seq<char>>, context: Option<Json>) -> Option<
    Seq<char>,
> {
    match pane_env {
        Some(id) if id.len() > 0 => Some(id),
        _ => match context {
            Some(c) => string_of(field(c, "focused_pane_id"@)),
            None => None,
        },
    }
}

/// The text of an optional string.
pub open spec fn opt_text(o: Option<String>) -> Option<Seq<char>> {
    match o {
        Some(s) => Some(s@),
        None => None,
    }
}

/// The value behind an optional reference.
pub open spec fn opt_json(o: Option<&Json>) -> Option<Json> {
    match o {
        Some(c) => Some(*c),
        None => None,
    }
}

/// Picks the focused pane from `HERDR_PANE_ID` and the parsed
/// `HERDR_PLUGIN_CONTEXT_JSON`.
pub fn focused_pane_from(pane_env: Option<String>, context: Option<&Json>) -> (r: Option<String>)
    ensures
        opt_text(r) == chosen_pane(opt_text(pane_env), opt_json(context)),
{
    if let Some(id) = pane_env {
        if id.as_str().unicode_len() > 0 {
            return Some(id);
        }
    }
    match context {
        Some(c) => match str_field(c, "focused_pane_id") {
            Some(s) => Some(String::from_str(s)),
            None => None,
        },
        None => None,
    }
}

/// Picks the focused pane from `HERDR_PANE_ID` and the text of
/// `HERDR_PLUGIN_CONTEXT_JSON` (ignored when it is not JSON).
pub fn focused_pane_id_from(pane_env: Option<String>, context_text: Option<&str>) -> (r: Option<
    String,
>)
    ensures
        opt_text(r) == chosen_pane(
            opt_text(pane_env),
            match context_text {
                Some(t) => json_value(t@),
                None => None,
            },
        ),
{
    match context_text {
        Some(t) => match parse_context(t) {
            Some(c) => focused_pane_from(pane_env, Some(&c)),
            None => focused_pane_from(pane_env, None),
        },
        None => focused_pane_from(pane_env, None),
    }
}

/// A set, non-empty `HERDR_PANE_ID` is the pane, whatever the context says;
/// without one, the pane is the context's `focused_pane_id` string, if any.
pub proof fn lemma_env_pane_wins(id: Seq<char>, context: Option<Json>)
    ensures
        id.len() > 0 ==> chosen_pane(Some(id), context) == Some(id),
        chosen_pane(None, context) == match context {
            Some(c) => match field(c, "focused_pane_id"@) {
                Some(Json::Str(s)) => Some(s@),
                _ => None,
            },
            None => None,
        },
        chosen_pane(Some(Seq::empty()), context) == chosen_pane(None, context),
{
}

} // verus!
