//! Handing server state to the page scripts: a page script that stores a
//! JSON value under a key in the client-side router's state.
use vstd::prelude::*;
use crate::text::{chars_of, extend_chars, string_of};

verus! {

/// The script that stores `json` under `key` through the client-side router
/// function `setter`, without overriding newer client-side values.
pub open spec fn state_script(setter: Seq<char>, key: Seq<char>, json: Seq<char>) -> Seq<char> {
    "<script data-page>"@ + setter + "('"@ + key + "', "@ + json + ", false);</script>"@
}

fn script(setter: &str, key: &str, json: &str) -> (r: String)
    ensures
        r@ == state_script(setter@, key@, json@),
{
    let mut out = chars_of("<script data-page>");
    extend_chars(&mut out, &chars_of(setter));
    extend_chars(&mut out, &chars_of("('"));
    extend_chars(&mut out, &chars_of(key));
    extend_chars(&mut out, &chars_of("', "));
    extend_chars(&mut out, &chars_of(json));
    extend_chars(&mut out, &chars_of(", false);</script>"));
    string_of(&out)
}

/// The script that stores the JSON text `json` under `key` in the state of
/// the current page (`Router.setState`). Stale state rendered on the server
/// does not override newer client-side updates.
pub fn serialize_state(key: &str, json: &str) -> (r: String)
    ensures
        r@ == state_script("Router.setState"@, key@, json@),
{
    script("Router.setState", key, json)
}

/// The script that stores the JSON text `json` under `key` in the state shared
/// by all pages (`Router.setGlobalState`).
pub fn serialize_global_state(key: &str, json: &str) -> (r: String)
    ensures
        r@ == state_script("Router.setGlobalState"@, key@, json@),
{
    script("Router.setGlobalState", key, json)
}

} // verus!
