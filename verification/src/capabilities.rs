//! What the adapter adds to the capabilities that a client announces.

use crate::json::{
    lemma_view_of_parts, members_view, merge_json_value_into, merged, JsonMember, JsonValue,
    JsonView, MemberView,
};
use vstd::prelude::*;

verus! {

/// The capabilities of a client, as far as the adapter touches them.
#[derive(Debug, PartialEq, Eq)]
pub struct ClientCapabilities {
    pub experimental: Option<JsonValue>,
}

/// The parameters of the request that opens a session, as far as the adapter touches
/// them.
#[derive(Debug, PartialEq, Eq)]
pub struct InitializeParams {
    pub capabilities: ClientCapabilities,
}

/// The object with the one member `key`: `value`.
pub open spec fn object_of(key: Seq<char>, value: JsonView) -> JsonView {
    JsonView::Object(seq![MemberView { key, value }])
}

/// The experimental capabilities that the adapter asks for: edits near the cursor in
/// completions, and reports of inactive regions.
pub open spec fn clangd_experimental() -> JsonView {
    object_of(
        "textDocument"@,
        JsonView::Object(
            seq![
                MemberView {
                    key: "completion"@,
                    value: object_of("editsNearCursor"@, JsonView::Bool(true)),
                },
                MemberView {
                    key: "inactiveRegionsCapabilities"@,
                    value: object_of("inactiveRegions"@, JsonView::Bool(true)),
                },
            ],
        ),
    )
}

/// The experimental capabilities after the adapter's have been merged into those that
/// the client announced: what the client set stays.
pub open spec fn prepared_experimental(announced: Option<JsonValue>) -> JsonView {
    match announced {
        Some(own) => merged(own@, clangd_experimental()),
        None => clangd_experimental(),
    }
}

/// The object with the one member `key`: `value`.
fn single(key: &str, value: JsonValue) -> (object: JsonValue)
    ensures
        object@ == object_of(key@, value@),
{
    let mut members: Vec<JsonMember> = Vec::new();
    members.push(JsonMember { key: key.to_owned(), value });
    let object = JsonValue::Object(members);
    proof {
        lemma_view_of_parts(object);
        assert(members_view(members@) =~= seq![MemberView { key: key@, value: value@ }]);
    }
    object
}

/// The experimental capabilities that the adapter asks for.
pub fn experimental_capabilities() -> (fragment: JsonValue)
    ensures
        fragment@ == clangd_experimental(),
{
    let completion = single("editsNearCursor", JsonValue::Bool(true));
    let regions = single("inactiveRegions", JsonValue::Bool(true));
    let mut members: Vec<JsonMember> = Vec::new();
    members.push(JsonMember { key: "completion".to_owned(), value: completion });
    members.push(JsonMember { key: "inactiveRegionsCapabilities".to_owned(), value: regions });
    let document = JsonValue::Object(members);
    proof {
        lemma_view_of_parts(document);
        assert(members_view(members@) =~= seq![
            MemberView {
                key: "completion"@,
                value: object_of("editsNearCursor"@, JsonView::Bool(true)),
            },
            MemberView {
                key: "inactiveRegionsCapabilities"@,
                value: object_of("inactiveRegions"@, JsonView::Bool(true)),
            },
        ]);
    }
    single("textDocument", document)
}

/// `params` with the adapter's experimental capabilities merged into those they
/// announce.
pub fn with_experimental_capabilities(params: InitializeParams) -> (prepared: InitializeParams)
    ensures
        prepared.capabilities.experimental matches Some(experimental) && experimental@
            == prepared_experimental(params.capabilities.experimental),
{
    let fragment = experimental_capabilities();
    let InitializeParams { capabilities } = params;
    let ClientCapabilities { experimental } = capabilities;
    let experimental = match experimental {
        Some(own) => {
            let mut own = own;
            merge_json_value_into(fragment, &mut own);
            own
        },
        None => fragment,
    };
    InitializeParams { capabilities: ClientCapabilities { experimental: Some(experimental) } }
}

} // verus!
