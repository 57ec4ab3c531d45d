//! The read route of the shell: what is answered to a checked read request,
//! before the provider is asked (a `HEAD` probe never reaches it) and after.

use vstd::prelude::*;
use vstd::string::StringExecFns;
use vstd::utf8::*;

use crate::framing::{json_text, json_to_string};
use crate::json::{object_of, push_member, Json, JsonView};
use crate::ui_ext::broker::{BrowserReadRequest, ReadOperation};
use crate::ui_ext::provider::{ProviderReadError, MAX_FRAME_BYTES};

verus! {

/// What to do with a checked read request.
#[derive(Debug)]
pub enum ReadStep {
    /// Answer with this status and JSON body; the provider is not asked.
    Answer(u16, Json),
    /// Ask the provider for this read.
    Ask(BrowserReadRequest),
}

pub open spec fn str_view(t: Seq<char>) -> JsonView {
    JsonView::String(t)
}

/// The answer to a `HEAD` probe: the read route exists and the request is
/// well formed, but nothing was read.
pub open spec fn probe_body(request_id: Seq<char>, op: Seq<char>) -> JsonView {
    JsonView::Object(
        seq![
            ("request_id"@, str_view(request_id)),
            ("op"@, str_view(op)),
            ("ok"@, JsonView::Bool(false)),
        ],
    )
}

/// The provider refused the read with `code`.
pub open spec fn rejected_body(request_id: Seq<char>, op: Seq<char>, generation: Seq<char>, code: Seq<char>) -> JsonView {
    JsonView::Object(
        seq![
            ("request_id"@, str_view(request_id)),
            ("op"@, str_view(op)),
            ("generation"@, str_view(generation)),
            ("ok"@, JsonView::Bool(false)),
            ("error"@, JsonView::Object(seq![("code"@, str_view(code))])),
        ],
    )
}

/// The provider answered the read with `payload`.
pub open spec fn result_body(request_id: Seq<char>, op: Seq<char>, generation: Seq<char>, payload: JsonView) -> JsonView {
    JsonView::Object(
        seq![
            ("request_id"@, str_view(request_id)),
            ("op"@, str_view(op)),
            ("generation"@, str_view(generation)),
            ("ok"@, JsonView::Bool(true)),
            ("payload"@, payload),
        ],
    )
}

/// A result whose JSON text exceeds the frame cap is not handed on.
pub open spec fn oversized_body(request_id: Seq<char>, op: Seq<char>) -> JsonView {
    JsonView::Object(
        seq![
            ("request_id"@, str_view(request_id)),
            ("op"@, str_view(op)),
            ("ok"@, JsonView::Bool(false)),
            ("error"@, str_view("response exceeds 8 MiB"@)),
        ],
    )
}

pub open spec fn channel_failed_body() -> JsonView {
    JsonView::Object(seq![("error"@, str_view("provider read failed"@))])
}

fn string(t: &str) -> (j: Json)
    ensures
        j@ == str_view(t@),
{
    Json::String(String::from_str(t))
}



/// A `HEAD` request is answered at once, without asking the provider; any
/// other read goes to the provider.
pub fn read_step(request: BrowserReadRequest, head: bool) -> (s: ReadStep)
    ensures
        head ==> (s matches ReadStep::Answer(status, body) && status == 200 && body@ == probe_body(
            request.request_id@,
            request.op.name(),
        )),
        !head ==> s == ReadStep::Ask(request),
{
    if head {
        let mut m: Vec<(String, Json)> = Vec::new();
        push_member(&mut m, "request_id", string(request.request_id.as_str()));
        push_member(&mut m, "op", string(request.op.as_str()));
        push_member(&mut m, "ok", Json::Bool(false));
        let body = object_of(m);
        assert(body@->Object_0 =~~= probe_body(request.request_id@, request.op.name())->Object_0);
        ReadStep::Answer(200, body)
    } else {
        ReadStep::Ask(request)
    }
}

/// The answer to a read once the provider was asked: its payload with the
/// channel's generation, unless its JSON text exceeds [`MAX_FRAME_BYTES`];
/// the provider's refusal with its code; or a failed channel (502).
pub fn read_answer(
    request_id: &str,
    op: ReadOperation,
    outcome: Result<(String, Json), ProviderReadError>,
) -> (a: (u16, Json))
    ensures
        match outcome {
            Ok((generation, payload)) => {
                let result = result_body(request_id@, op.name(), generation@, payload@);
                if encode_utf8(json_text(result)).len() > MAX_FRAME_BYTES {
                    a.0 == 502 && a.1@ == oversized_body(request_id@, op.name())
                } else {
                    a.0 == 200 && a.1@ == result
                }
            },
            Err(ProviderReadError::Rejected { generation, code }) => a.0 == 200 && a.1@ == rejected_body(
                request_id@,
                op.name(),
                generation@,
                code@,
            ),
            Err(ProviderReadError::Channel(_)) => a.0 == 502 && a.1@ == channel_failed_body(),
        },
{
    let ghost rid = request_id@;
    let ghost name = op.name();
    match outcome {
        Ok((generation, payload)) => {
            let ghost gv = generation@;
            let ghost pv = payload@;
            let mut m: Vec<(String, Json)> = Vec::new();
            push_member(&mut m, "request_id", string(request_id));
            push_member(&mut m, "op", string(op.as_str()));
            push_member(&mut m, "generation", Json::String(generation));
            push_member(&mut m, "ok", Json::Bool(true));
            push_member(&mut m, "payload", payload);
            let result = object_of(m);
            assert(result@->Object_0 =~~= result_body(rid, name, gv, pv)->Object_0);
            let text = json_to_string(&result);
            let len = text.as_str().as_bytes().len();
            if len > MAX_FRAME_BYTES {
                let mut e: Vec<(String, Json)> = Vec::new();
                push_member(&mut e, "request_id", string(request_id));
                push_member(&mut e, "op", string(op.as_str()));
                push_member(&mut e, "ok", Json::Bool(false));
                push_member(&mut e, "error", string("response exceeds 8 MiB"));
                let body = object_of(e);
                assert(body@->Object_0 =~~= oversized_body(rid, name)->Object_0);
                (502, body)
            } else {
                (200, result)
            }
        },
        Err(ProviderReadError::Rejected { generation, code }) => {
            let mut c: Vec<(String, Json)> = Vec::new();
            push_member(&mut c, "code", Json::String(code));
            let error = object_of(c);
            let mut m: Vec<(String, Json)> = Vec::new();
            push_member(&mut m, "request_id", string(request_id));
            push_member(&mut m, "op", string(op.as_str()));
            push_member(&mut m, "generation", Json::String(generation));
            push_member(&mut m, "ok", Json::Bool(false));
            push_member(&mut m, "error", error);
            let body = object_of(m);
            proof {
                assert(error@->Object_0 =~~= seq![("code"@, str_view(code@))]);
                assert(body@->Object_0 =~~= rejected_body(rid, name, generation@, code@)->Object_0);
            }
            (200, body)
        },
        Err(ProviderReadError::Channel(_)) => {
            let mut m: Vec<(String, Json)> = Vec::new();
            push_member(&mut m, "error", string("provider read failed"));
            let body = object_of(m);
            assert(body@->Object_0 =~~= channel_failed_body()->Object_0);
            (502, body)
        },
    }
}

} // verus!
