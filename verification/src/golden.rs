//! Pinned golden vectors: one message of each kind with every field value
//! fixed, so that independent implementations can compare the frames they
//! produce byte for byte.

use vstd::prelude::*;
use vstd::string::StringExecFns;

use crate::framing::{frame_bytes, spec_frame_bytes, FrameError};
use crate::json::{object_of, push_member, Json, JsonView};
use crate::ui::{hex_string, hex_text};

verus! {

pub open spec fn text(t: Seq<char>) -> JsonView {
    JsonView::String(t)
}

pub open spec fn empty_object() -> JsonView {
    JsonView::Object(Seq::empty())
}

/// The `initialize` request of the host.
pub open spec fn golden_initialize() -> JsonView {
    JsonView::Object(
        seq![
            ("jsonrpc"@, text("2.0"@)),
            ("id"@, text("h-1"@)),
            ("method"@, text("initialize"@)),
            (
                "params"@,
                JsonView::Object(
                    seq![
                        ("protocol_version"@, JsonView::PosInt(1)),
                        ("host_version"@, text("golden-host"@)),
                    ],
                ),
            ),
        ],
    )
}

/// The one external link of the golden record.
pub open spec fn golden_link() -> JsonView {
    JsonView::Object(
        seq![
            ("url"@, text("https://example.test/p1"@)),
            ("provider"@, text("example"@)),
            ("label"@, JsonView::Null),
            ("kind"@, text("retail"@)),
            ("external_id"@, text("X1"@)),
            ("metadata"@, empty_object()),
        ],
    )
}

/// The record carried by the golden `record` notification.
pub open spec fn golden_record_fields() -> JsonView {
    JsonView::Object(
        seq![
            ("source_name"@, text("golden"@)),
            ("source_url"@, text("golden://1"@)),
            ("title"@, text("Golden One"@)),
            ("brand_raw"@, text("Golden Brand"@)),
            ("brand_normalized"@, text("golden brand"@)),
            ("normalizer_id"@, text("golden"@)),
            ("normalizer_version"@, text("1"@)),
            ("performers_raw"@, JsonView::Array(seq![text("P1"@), text("P2"@)])),
            ("cover_urls"@, JsonView::Array(seq![text("golden://c1"@)])),
            ("page_urls"@, JsonView::Array(seq![text("golden://page/1"@)])),
            ("issue_no"@, text("No.1"@)),
            ("external_links"@, JsonView::Array(seq![golden_link()])),
            ("release_date"@, text("2026-06-01"@)),
            ("post_date"@, JsonView::Null),
            ("extra"@, empty_object()),
        ],
    )
}

/// The `record` notification of a plugin.
pub open spec fn golden_record() -> JsonView {
    JsonView::Object(
        seq![
            ("jsonrpc"@, text("2.0"@)),
            ("method"@, text("record"@)),
            (
                "params"@,
                JsonView::Object(
                    seq![("request_id"@, text("run-1"@)), ("record"@, golden_record_fields())],
                ),
            ),
        ],
    )
}

/// The `fetch_request` of a plugin.
pub open spec fn golden_fetch_request() -> JsonView {
    JsonView::Object(
        seq![
            ("jsonrpc"@, text("2.0"@)),
            ("id"@, text("p-1"@)),
            ("method"@, text("fetch_request"@)),
            (
                "params"@,
                JsonView::Object(
                    seq![
                        ("id"@, text("p-2"@)),
                        (
                            "request"@,
                            JsonView::Object(
                                seq![
                                    ("url"@, text("http://127.0.0.1:8080/p1"@)),
                                    ("method"@, text("GET"@)),
                                    ("headers"@, empty_object()),
                                ],
                            ),
                        ),
                    ],
                ),
            ),
        ],
    )
}

/// The `state_query` of a plugin.
pub open spec fn golden_state_query() -> JsonView {
    JsonView::Object(
        seq![
            ("jsonrpc"@, text("2.0"@)),
            ("id"@, text("p-3"@)),
            ("method"@, text("state_query"@)),
            (
                "params"@,
                JsonView::Object(
                    seq![
                        ("id"@, text("state-1"@)),
                        ("op"@, text("known_source_urls"@)),
                        ("args"@, JsonView::Object(seq![("source_name"@, text("golden"@))])),
                    ],
                ),
            ),
        ],
    )
}

fn string(t: &str) -> (j: Json)
    ensures
        j@ == text(t@),
{
    Json::String(String::from_str(t))
}



fn empty() -> (j: Json)
    ensures
        j@ == empty_object(),
{
    let j = Json::Object(Vec::new());
    assert(j@->Object_0 =~= Seq::<(Seq<char>, JsonView)>::empty());
    j
}

fn strings(items: &[&str]) -> (j: Json)
    ensures
        j@ == JsonView::Array(items@.map_values(|t: &str| text(t@))),
{
    let mut out: Vec<Json> = Vec::new();
    let mut i: usize = 0;
    while i < items.len()
        invariant
            i <= items@.len(),
            out@.len() == i,
            forall|j: int| 0 <= j < i ==> (#[trigger] out@[j])@ == text(items@[j]@),
        decreases items@.len() - i,
    {
        out.push(string(items[i]));
        i += 1;
    }
    let j = Json::Array(out);
    assert(j@->Array_0 =~= items@.map_values(|t: &str| text(t@)));
    j
}

fn golden_link_value() -> (j: Json)
    ensures
        j@ == golden_link(),
{
    let mut m: Vec<(String, Json)> = Vec::new();
    push_member(&mut m, "url", string("https://example.test/p1"));
    push_member(&mut m, "provider", string("example"));
    push_member(&mut m, "label", Json::Null);
    push_member(&mut m, "kind", string("retail"));
    push_member(&mut m, "external_id", string("X1"));
    push_member(&mut m, "metadata", empty());
    let j = object_of(m);
    assert(j@->Object_0 =~~= golden_link()->Object_0);
    j
}

fn golden_record_fields_value() -> (j: Json)
    ensures
        j@ == golden_record_fields(),
{
    let mut links: Vec<Json> = Vec::new();
    links.push(golden_link_value());
    let links = Json::Array(links);
    assert(links@->Array_0 =~~= seq![golden_link()]);
    let mut m: Vec<(String, Json)> = Vec::new();
    push_member(&mut m, "source_name", string("golden"));
    push_member(&mut m, "source_url", string("golden://1"));
    push_member(&mut m, "title", string("Golden One"));
    push_member(&mut m, "brand_raw", string("Golden Brand"));
    push_member(&mut m, "brand_normalized", string("golden brand"));
    push_member(&mut m, "normalizer_id", string("golden"));
    push_member(&mut m, "normalizer_version", string("1"));
    let performers = strings(&["P1", "P2"]);
    assert(performers@->Array_0 =~~= seq![text("P1"@), text("P2"@)]);
    push_member(&mut m, "performers_raw", performers);
    let covers = strings(&["golden://c1"]);
    assert(covers@->Array_0 =~~= seq![text("golden://c1"@)]);
    push_member(&mut m, "cover_urls", covers);
    let pages = strings(&["golden://page/1"]);
    assert(pages@->Array_0 =~~= seq![text("golden://page/1"@)]);
    push_member(&mut m, "page_urls", pages);
    push_member(&mut m, "issue_no", string("No.1"));
    push_member(&mut m, "external_links", links);
    push_member(&mut m, "release_date", string("2026-06-01"));
    push_member(&mut m, "post_date", Json::Null);
    push_member(&mut m, "extra", empty());
    let j = object_of(m);
    assert(j@->Object_0 =~~= golden_record_fields()->Object_0);
    j
}

fn golden_record_value() -> (j: Json)
    ensures
        j@ == golden_record(),
{
    let mut params: Vec<(String, Json)> = Vec::new();
    push_member(&mut params, "request_id", string("run-1"));
    push_member(&mut params, "record", golden_record_fields_value());
    let params = object_of(params);
    assert(params@->Object_0 =~~= seq![("request_id"@, text("run-1"@)), ("record"@, golden_record_fields())]);
    let mut m: Vec<(String, Json)> = Vec::new();
    push_member(&mut m, "jsonrpc", string("2.0"));
    push_member(&mut m, "method", string("record"));
    push_member(&mut m, "params", params);
    let j = object_of(m);
    assert(j@->Object_0 =~~= golden_record()->Object_0);
    j
}

fn golden_initialize_value() -> (j: Json)
    ensures
        j@ == golden_initialize(),
{
    let mut params: Vec<(String, Json)> = Vec::new();
    push_member(&mut params, "protocol_version", Json::PosInt(1));
    push_member(&mut params, "host_version", string("golden-host"));
    let params = object_of(params);
    assert(params@->Object_0 =~~= seq![("protocol_version"@, JsonView::PosInt(1)), ("host_version"@, text("golden-host"@))]);
    let mut m: Vec<(String, Json)> = Vec::new();
    push_member(&mut m, "jsonrpc", string("2.0"));
    push_member(&mut m, "id", string("h-1"));
    push_member(&mut m, "method", string("initialize"));
    push_member(&mut m, "params", params);
    let j = object_of(m);
    assert(j@->Object_0 =~~= golden_initialize()->Object_0);
    j
}

fn golden_fetch_request_value() -> (j: Json)
    ensures
        j@ == golden_fetch_request(),
{
    let mut request: Vec<(String, Json)> = Vec::new();
    push_member(&mut request, "url", string("http://127.0.0.1:8080/p1"));
    push_member(&mut request, "method", string("GET"));
    push_member(&mut request, "headers", empty());
    let request = object_of(request);
    assert(request@->Object_0 =~~= seq![
        ("url"@, text("http://127.0.0.1:8080/p1"@)),
        ("method"@, text("GET"@)),
        ("headers"@, empty_object()),
    ]);
    let mut params: Vec<(String, Json)> = Vec::new();
    push_member(&mut params, "id", string("p-2"));
    push_member(&mut params, "request", request);
    let params = object_of(params);
    assert(params@->Object_0 =~~= golden_fetch_request()->Object_0[3].1->Object_0);
    let mut m: Vec<(String, Json)> = Vec::new();
    push_member(&mut m, "jsonrpc", string("2.0"));
    push_member(&mut m, "id", string("p-1"));
    push_member(&mut m, "method", string("fetch_request"));
    push_member(&mut m, "params", params);
    let j = object_of(m);
    assert(j@->Object_0 =~~= golden_fetch_request()->Object_0);
    j
}

fn golden_state_query_value() -> (j: Json)
    ensures
        j@ == golden_state_query(),
{
    let mut args: Vec<(String, Json)> = Vec::new();
    push_member(&mut args, "source_name", string("golden"));
    let args = object_of(args);
    assert(args@->Object_0 =~~= seq![("source_name"@, text("golden"@))]);
    let mut params: Vec<(String, Json)> = Vec::new();
    push_member(&mut params, "id", string("state-1"));
    push_member(&mut params, "op", string("known_source_urls"));
    push_member(&mut params, "args", args);
    let params = object_of(params);
    assert(params@->Object_0 =~~= golden_state_query()->Object_0[3].1->Object_0);
    let mut m: Vec<(String, Json)> = Vec::new();
    push_member(&mut m, "jsonrpc", string("2.0"));
    push_member(&mut m, "id", string("p-3"));
    push_member(&mut m, "method", string("state_query"));
    push_member(&mut m, "params", params);
    let j = object_of(m);
    assert(j@->Object_0 =~~= golden_state_query()->Object_0);
    j
}

/// The golden messages, each with the name of its fixture.
pub fn messages() -> (v: Vec<(&'static str, Json)>)
    ensures
        v@.len() == 4,
        v@[0].0@ == "initialize"@ && v@[0].1@ == golden_initialize(),
        v@[1].0@ == "record"@ && v@[1].1@ == golden_record(),
        v@[2].0@ == "fetch_request"@ && v@[2].1@ == golden_fetch_request(),
        v@[3].0@ == "state_query"@ && v@[3].1@ == golden_state_query(),
{
    let mut v: Vec<(&'static str, Json)> = Vec::new();
    v.push(("initialize", golden_initialize_value()));
    v.push(("record", golden_record_value()));
    v.push(("fetch_request", golden_fetch_request_value()));
    v.push(("state_query", golden_state_query_value()));
    v
}

/// The framed bytes of a message (length prefix, then its canonical JSON) as
/// lowercase hexadecimal; a message whose canonical JSON exceeds the frame
/// cap is refused.
pub fn frame_hex(value: &Json) -> (r: Result<String, FrameError>)
    ensures
        match spec_frame_bytes(value@) {
            Ok(bytes) => r matches Ok(h) && h@ == hex_text(bytes),
            Err(e) => r == Err::<String, FrameError>(e),
        },
{
    match frame_bytes(value) {
        Ok(bytes) => Ok(hex_string(bytes.as_slice())),
        Err(e) => Err(e),
    }
}

} // verus!
