//! The shell page: HTML escaping, the frame of each extension, the broker
//! script with the registrations it serves, the page's content security
//! policy and its nonce, and the read route.

use vstd::prelude::*;
use vstd::string::StringExecFns;

use vstd::utf8::*;

use crate::framing::{json_text, json_to_string};
use crate::json::{push_member, Json, JsonView};
use crate::text::{chars_of, decimal_chars, decimal_string, join2, string_from_chars};
use crate::ui::{hex_string, hex_text, random_bytes};
use crate::ui_ext::broker::{BROKER_CHANNEL, MAX_IFRAME_CONCURRENT_REQUESTS};
use crate::ui_ext::manifest::{ExtensionManifest, ManifestFields};
use crate::ui_ext::registry::{registered_view, ExtensionRegistry, RegisteredExtension, RegisteredView};

verus! {

/// Path prefix of the shell's read route.
pub fn read_route_prefix() -> (p: &'static str)
    ensures
        p@ == "/__mh_ui_ext/read/"@,
{
    "/__mh_ui_ext/read/"
}

pub open spec fn escape_char(c: char) -> Seq<char> {
    if c == '&' {
        "&amp;"@
    } else if c == '<' {
        "&lt;"@
    } else if c == '>' {
        "&gt;"@
    } else if c == '"' {
        "&quot;"@
    } else if c == '\'' {
        "&#39;"@
    } else {
        seq![c]
    }
}

/// HTML escaping: `&`, `<`, `>`, `"` and `'` become character references.
pub open spec fn escaped(s: Seq<char>) -> Seq<char>
    decreases s.len(),
{
    if s.len() == 0 {
        Seq::empty()
    } else {
        escaped(s.drop_last()) + escape_char(s.last())
    }
}

fn push_str(out: &mut Vec<char>, s: &str)
    ensures
        final(out)@ == old(out)@ + s@,
{
    let c = chars_of(s);
    let ghost start = out@;
    let mut i: usize = 0;
    while i < c.len()
        invariant
            i <= c@.len(),
            out@ == start + c@.take(i as int),
        decreases c@.len() - i,
    {
        out.push(c[i]);
        assert(out@ =~= start + c@.take(i + 1));
        i += 1;
    }
    assert(c@.take(c@.len() as int) =~= c@);
}

pub fn html_escape(value: &str) -> (s: String)
    ensures
        s@ == escaped(value@),
{
    let v = chars_of(value);
    let mut out: Vec<char> = Vec::new();
    let mut i: usize = 0;
    while i < v.len()
        invariant
            i <= v@.len(),
            out@ == escaped(v@.take(i as int)),
        decreases v@.len() - i,
    {
        let c = v[i];
        let ghost before = out@;
        if c == '&' {
            push_str(&mut out, "&amp;");
        } else if c == '<' {
            push_str(&mut out, "&lt;");
        } else if c == '>' {
            push_str(&mut out, "&gt;");
        } else if c == '"' {
            push_str(&mut out, "&quot;");
        } else if c == '\'' {
            push_str(&mut out, "&#39;");
        } else {
            out.push(c);
        }
        proof {
            assert(v@.take(i + 1).drop_last() =~= v@.take(i as int));
            assert(out@ =~= before + escape_char(c));
        }
        i += 1;
    }
    assert(v@.take(v@.len() as int) =~= v@);
    string_from_chars(out.as_slice())
}

/// A fresh nonce for the page's scripts and styles: 16 random bytes in
/// lowercase hexadecimal.
pub fn make_nonce() -> (r: Result<String, String>)
    ensures
        r matches Ok(n) ==> n@.len() == 32 && exists|b: Seq<u8>| b.len() == 16 && n@ == hex_text(b),
        r matches Err(e) ==> exists|m: Seq<char>| e@ == "shell CSP nonce generation failed: "@ + m,
{
    let mut bytes = [0u8; 16];
    match random_bytes(&mut bytes) {
        Ok(()) => {
            let n = hex_string(&bytes);
            assert(bytes@.len() == 16);
            Ok(n)
        },
        Err(e) => {
            let m = join2("shell CSP nonce generation failed: ", e.as_str());
            assert(m@ == "shell CSP nonce generation failed: "@ + e@);
            Err(m)
        },
    }
}

/// The content security policy of the shell page.
pub open spec fn spec_shell_csp(nonce: Seq<char>, asset_origin: Seq<char>) -> Seq<char> {
    "default-src 'none'; script-src 'nonce-"@ + nonce + "'; style-src 'nonce-"@ + nonce
        + "'; connect-src 'self'; frame-src "@ + escaped(asset_origin)
        + "; img-src 'none'; font-src 'none'; media-src 'none'; object-src 'none'; worker-src 'none'; manifest-src 'none'; base-uri 'none'; form-action 'none'; frame-ancestors 'none'"@
}

pub fn shell_csp(nonce: &str, asset_origin: &str) -> (s: String)
    ensures
        s@ == spec_shell_csp(nonce@, asset_origin@),
{
    let origin = html_escape(asset_origin);
    let mut s = String::from_str("default-src 'none'; script-src 'nonce-");
    s.append(nonce);
    s.append("'; style-src 'nonce-");
    s.append(nonce);
    s.append("'; connect-src 'self'; frame-src ");
    s.append(origin.as_str());
    s.append(
        "; img-src 'none'; font-src 'none'; media-src 'none'; object-src 'none'; worker-src 'none'; manifest-src 'none'; base-uri 'none'; form-action 'none'; frame-ancestors 'none'",
    );
    s
}

/// Where an extension's entry is served from.
pub open spec fn spec_entry_src(asset_origin: Seq<char>, name: Seq<char>, entry: Seq<char>) -> Seq<
    char,
> {
    asset_origin + "/extensions/"@ + name + "/"@ + entry
}

pub fn entry_src(asset_origin: &str, name: &str, entry: &str) -> (s: String)
    ensures
        s@ == spec_entry_src(asset_origin@, name@, entry@),
{
    let mut s = String::from_str(asset_origin);
    s.append("/extensions/");
    s.append(name);
    s.append("/");
    s.append(entry);
    s
}

/// The card of one extension on the shell page: its title, its description
/// when it has a non-empty one, and a script-only sandboxed frame of its entry.
pub open spec fn spec_extension_card(m: crate::ui_ext::manifest::ManifestFields, asset_origin: Seq<char>) -> Seq<char> {
    let description = match m.description {
        Some(d) => escaped(d),
        None => Seq::empty(),
    };
    let paragraph = if description.len() == 0 {
        Seq::empty()
    } else {
        "<p>"@ + description + "</p>"@
    };
    "<article class=\"mh-ui-ext-card\"><h2>"@ + escaped(m.title) + "</h2>"@ + paragraph
        + "<iframe id=\"mh-ui-ext-"@ + escaped(m.name) + "\" title=\""@ + escaped(m.title)
        + "\" src=\""@ + escaped(spec_entry_src(asset_origin, m.name, m.entry))
        + "\" sandbox=\"allow-scripts\"></iframe></article>"@
}

pub fn extension_card(m: &ExtensionManifest, asset_origin: &str) -> (s: String)
    ensures
        s@ == spec_extension_card(m@, asset_origin@),
{
    let name = html_escape(m.name.as_str());
    let title = html_escape(m.title.as_str());
    let src = entry_src(asset_origin, m.name.as_str(), m.entry.as_str());
    let src = html_escape(src.as_str());
    let description = match &m.description {
        Some(d) => html_escape(d.as_str()),
        None => String::from_str(""),
    };
    proof {
        reveal_strlit("");
    }
    let dc = chars_of(description.as_str());
    let paragraph = if dc.len() > 0 {
        let mut p = String::from_str("<p>");
        p.append(description.as_str());
        p.append("</p>");
        p
    } else {
        String::from_str("")
    };
    let mut s = String::from_str("<article class=\"mh-ui-ext-card\"><h2>");
    s.append(title.as_str());
    s.append("</h2>");
    s.append(paragraph.as_str());
    s.append("<iframe id=\"mh-ui-ext-");
    s.append(name.as_str());
    s.append("\" title=\"");
    s.append(title.as_str());
    s.append("\" src=\"");
    s.append(src.as_str());
    s.append("\" sandbox=\"allow-scripts\"></iframe></article>");
    s
}

/// The broker script up to its channel.
pub const SCRIPT_OPEN: &'static str = r#"(function () {
  'use strict';
  const CHANNEL = "#;

/// The broker script from its channel to its concurrency limit.
pub const SCRIPT_AFTER_CHANNEL: &'static str = r#";
  const MAX_REQUEST_BYTES = 16384;
  const MAX_RESPONSE_BYTES = 8388608;
  const MAX_CONCURRENT = "#;

/// The broker script from its concurrency limit to its read prefix.
pub const SCRIPT_AFTER_LIMIT: &'static str = r#";
  const READ_PREFIX = "#;

/// The broker script from its read prefix to its registrations.
pub const SCRIPT_AFTER_PREFIX: &'static str = r#";
  const registrations = "#;

/// The rest of the broker script: it checks each message of a registered
/// frame, forwards it to the read route, and posts the checked answer back.
pub const SCRIPT_CLOSE: &'static str = r#";
  const pending = new Map();
  const counts = new WeakMap();

  function jsonByteLength(value) {
    try { return new TextEncoder().encode(JSON.stringify(value)).length; }
    catch (_error) { return Infinity; }
  }
  function textByteLength(value) {
    try { return new TextEncoder().encode(value).length; }
    catch (_error) { return Infinity; }
  }
  function isPlainObject(value) {
    if (value === null || typeof value !== 'object') return false;
    const prototype = Object.getPrototypeOf(value);
    return prototype === Object.prototype || prototype === null;
  }
  function hasExactKeys(value, keys) {
    const actual = Object.keys(value).sort();
    const expected = keys.slice().sort();
    return actual.length === expected.length &&
      actual.every((key, index) => key === expected[index]);
  }
  function textOkay(value, limit) {
    return typeof value === 'string' && value.trim() !== '' &&
      textByteLength(value) <= limit &&
      !/[\\u0000-\\u001f\\u007f]/.test(value);
  }
  function requestIdOkay(value) {
    return typeof value === 'string' && /^[A-Za-z0-9_-]{1,64}$/.test(value);
  }
  function payloadOkay(op, payload) {
    if (!isPlainObject(payload)) return false;
    if (op === 'gallery.list') {
      if (!hasExactKeys(payload, ['limit', 'offset'])) return false;
      return Number.isSafeInteger(payload.limit) && payload.limit >= 1 &&
        payload.limit <= 200 && Number.isSafeInteger(payload.offset) &&
        payload.offset >= 0;
    }
    if (op === 'graph.detail') {
      return hasExactKeys(payload, ['work_key']) &&
        textOkay(payload.work_key, 4096);
    }
    return false;
  }
  function registrationFor(source) {
    for (const registration of registrations) {
      if (source === registration.frame.contentWindow) return registration;
    }
    return null;
  }
  function sendResult(registration, request, result) {
    let message = {
      channel: CHANNEL,
      type: 'read-result',
      request_id: request.request_id,
      op: request.op,
      generation: result && typeof result.generation === 'string'
        ? result.generation : null,
      ok: result && result.ok === true,
      payload: result && result.ok === true ? result.payload : null
    };
    if (result && result.ok !== true) {
      message.error = result.error && typeof result.error.code === 'string'
        ? {code: result.error.code} : {code: 'read_failed'};
    }
    if (jsonByteLength(message) > MAX_RESPONSE_BYTES) {
      message = {
        channel: CHANNEL, type: 'read-result',
        request_id: request.request_id, op: request.op,
        generation: null, ok: false, payload: null,
        error: 'response exceeds 16 KiB'
      };
    }
    registration.frame.contentWindow.postMessage(message, '*');
  }
  function finish(registration, request, result) {
    pending.delete(request.request_id);
    counts.set(registration.frame, Math.max(0, (counts.get(registration.frame) || 1) - 1));
    sendResult(registration, request, result);
  }
  window.addEventListener('message', function (event) {
    const registration = registrationFor(event.source);
    if (!registration) return;
    const message = event.data;
    if (!isPlainObject(message) ||
        jsonByteLength(message) > MAX_REQUEST_BYTES ||
        !hasExactKeys(message, ['channel', 'type', 'request_id', 'op', 'payload']) ||
        message.channel !== CHANNEL || message.type !== 'read' ||
        !requestIdOkay(message.request_id) ||
        (message.op !== 'gallery.list' && message.op !== 'graph.detail') ||
        !payloadOkay(message.op, message.payload) ||
        pending.has(message.request_id)) return;
    const count = counts.get(registration.frame) || 0;
    if (count >= MAX_CONCURRENT) {
      sendResult(registration, message, {ok: false});
      return;
    }
    counts.set(registration.frame, count + 1);
    pending.set(message.request_id, {registration: registration, request: message});
    const query = new URLSearchParams();
    query.set('request_id', message.request_id);
    query.set('op', message.op);
    query.set('payload', JSON.stringify(message.payload));
    fetch(READ_PREFIX + encodeURIComponent(registration.name) + '?' + query.toString(),
      {method: 'GET', cache: 'no-store', credentials: 'same-origin'})
      .then(function (response) {
        if (!response.ok) throw new Error('read failed');
        return response.json();
      })
      .then(function (result) {
        const current = pending.get(message.request_id);
        if (!current || current.registration !== registration ||
            !result || result.request_id !== message.request_id ||
            result.op !== message.op || typeof result.ok !== 'boolean') {
          throw new Error('broker response mismatch');
        }
        finish(registration, message, result);
      })
      .catch(function () {
        if (pending.has(message.request_id)) finish(registration, message, {ok: false});
      });
  });
  for (const registration of registrations) {
    registration.frame = document.getElementById('mh-ui-ext-' + registration.name);
    counts.set(registration.frame, 0);
  }
})();"#;

/// The shell page up to its origin.
pub const PAGE_OPEN: &'static str = r#"<!doctype html><html lang="en"><head><meta charset="utf-8"><meta name="referrer" content="no-referrer"><meta name="mh-ui-ext-shell" content=""#;

/// The shell page from its origin to the style's nonce.
pub const PAGE_AFTER_ORIGIN: &'static str = r#""><title>mh-ui-ext</title><style nonce=""#;

/// The shell page's style, heading and the start of its grid.
pub const PAGE_AFTER_STYLE_NONCE: &'static str = r#"">body{font-family:system-ui,sans-serif;margin:2rem;background:#f7f7f7;color:#222}main{max-width:72rem;margin:auto}.mh-ui-ext-grid{display:grid;grid-template-columns:repeat(auto-fit,minmax(20rem,1fr));gap:1rem}.mh-ui-ext-card{background:white;border:1px solid #ccc;border-radius:.5rem;padding:1rem}iframe{display:block;width:100%;min-height:16rem;border:1px solid #ddd;border-radius:.25rem}</style></head><body><main><h1>mh-ui-ext</h1><p>Read-only trusted UI extensions. Extension assets are local executable code.</p><section class="mh-ui-ext-grid">"#;

/// The end of the grid, up to the script's nonce.
pub const PAGE_AFTER_FRAMES: &'static str = r#"</section></main><script nonce=""#;

/// Between the script's nonce and the script.
pub const PAGE_AFTER_SCRIPT_NONCE: &'static str = r#"">"#;

/// The end of the shell page.
pub const PAGE_CLOSE: &'static str = r#"</script></body></html>"#;

pub open spec fn script_escape_char(c: char) -> Seq<char> {
    if c == '<' {
        "\\u003c"@
    } else if c == '>' {
        "\\u003e"@
    } else if c == '&' {
        "\\u0026"@
    } else if c == '\u{2028}' {
        "\\u2028"@
    } else if c == '\u{2029}' {
        "\\u2029"@
    } else {
        seq![c]
    }
}

/// JSON text made safe inside a `<script>` element: `<`, `>`, `&` and the
/// two line separators become `\u` escapes.
pub open spec fn script_escaped(s: Seq<char>) -> Seq<char>
    decreases s.len(),
{
    if s.len() == 0 {
        Seq::empty()
    } else {
        script_escaped(s.drop_last()) + script_escape_char(s.last())
    }
}

/// A JSON value as text to embed in the broker script.
pub fn script_json(value: &Json) -> (s: String)
    ensures
        s@ == script_escaped(json_text(value@)),
{
    let text = json_to_string(value);
    let v = chars_of(text.as_str());
    let mut out: Vec<char> = Vec::new();
    let mut i: usize = 0;
    while i < v.len()
        invariant
            i <= v@.len(),
            out@ == script_escaped(v@.take(i as int)),
        decreases v@.len() - i,
    {
        let c = v[i];
        let ghost before = out@;
        if c == '<' {
            push_str(&mut out, "\\u003c");
        } else if c == '>' {
            push_str(&mut out, "\\u003e");
        } else if c == '&' {
            push_str(&mut out, "\\u0026");
        } else if c == '\u{2028}' {
            push_str(&mut out, "\\u2028");
        } else if c == '\u{2029}' {
            push_str(&mut out, "\\u2029");
        } else {
            out.push(c);
        }
        proof {
            assert(v@.take(i + 1).drop_last() =~= v@.take(i as int));
            assert(out@ =~= before + script_escape_char(c));
        }
        i += 1;
    }
    assert(v@.take(v@.len() as int) =~= v@);
    string_from_chars(out.as_slice())
}

/// The broker script around the JSON text of its registrations.
pub open spec fn spec_broker_script(registrations: Seq<char>) -> Seq<char> {
    SCRIPT_OPEN@ + script_escaped(json_text(JsonView::String(BROKER_CHANNEL@))) + SCRIPT_AFTER_CHANNEL@
        + decimal_chars(MAX_IFRAME_CONCURRENT_REQUESTS as nat) + SCRIPT_AFTER_LIMIT@
        + script_escaped(json_text(JsonView::String(read_route_prefix_text()))) + SCRIPT_AFTER_PREFIX@
        + registrations + SCRIPT_CLOSE@
}

pub open spec fn read_route_prefix_text() -> Seq<char> {
    "/__mh_ui_ext/read/"@
}

/// The shell's broker script: it serves the frames in `registrations_json`.
pub fn broker_script(registrations_json: &str) -> (s: String)
    ensures
        s@ == spec_broker_script(registrations_json@),
{
    let channel = script_json(&Json::String(String::from_str(BROKER_CHANNEL)));
    let limit = decimal_string(MAX_IFRAME_CONCURRENT_REQUESTS as u64);
    let prefix = script_json(&Json::String(String::from_str(read_route_prefix())));
    let mut s = String::from_str(SCRIPT_OPEN);
    s.append(channel.as_str());
    s.append(SCRIPT_AFTER_CHANNEL);
    s.append(limit.as_str());
    s.append(SCRIPT_AFTER_LIMIT);
    s.append(prefix.as_str());
    s.append(SCRIPT_AFTER_PREFIX);
    s.append(registrations_json);
    s.append(SCRIPT_CLOSE);
    s
}

/// What the broker script is told of one extension.
pub open spec fn registration_view(m: ManifestFields, asset_origin: Seq<char>) -> JsonView {
    JsonView::Object(
        seq![
            ("name"@, JsonView::String(m.name)),
            ("title"@, JsonView::String(m.title)),
            (
                "description"@,
                match m.description {
                    Some(d) => JsonView::String(d),
                    None => JsonView::Null,
                },
            ),
            ("src"@, JsonView::String(spec_entry_src(asset_origin, m.name, m.entry))),
        ],
    )
}

pub open spec fn registrations_view(extensions: Seq<RegisteredView>, asset_origin: Seq<char>) -> JsonView {
    JsonView::Array(extensions.map_values(|e: RegisteredView| registration_view(e.manifest, asset_origin)))
}


fn registration(m: &ExtensionManifest, asset_origin: &str) -> (j: Json)
    ensures
        j@ == registration_view(m@, asset_origin@),
{
    let mut v: Vec<(String, Json)> = Vec::new();
    push_member(&mut v, "name", Json::String(m.name.clone()));
    push_member(&mut v, "title", Json::String(m.title.clone()));
    let description = match &m.description {
        Some(d) => Json::String(d.clone()),
        None => Json::Null,
    };
    assert(description@ == match m@.description {
        Some(d) => JsonView::String(d),
        None => JsonView::Null,
    });
    push_member(&mut v, "description", description);
    push_member(&mut v, "src", Json::String(entry_src(asset_origin, m.name.as_str(), m.entry.as_str())));
    let ghost members = v@;
    let j = Json::Object(v);
    assert(j@->Object_0 =~= crate::json::member_views(members));
    assert(j@->Object_0 =~~= registration_view(m@, asset_origin@)->Object_0);
    j
}

/// What the broker script is told of every extension, in the registry's order.
pub fn registrations(registry: &ExtensionRegistry, asset_origin: &str) -> (j: Json)
    requires
        registry.wf(),
    ensures
        j@ == registrations_view(registry.views(), asset_origin@),
{
    let all = registry.all();
    let ghost want = registrations_view(registry.views(), asset_origin@)->Array_0;
    let mut out: Vec<Json> = Vec::new();
    let mut i: usize = 0;
    while i < all.len()
        invariant
            all@.map_values(|e: RegisteredExtension| registered_view(e)) == registry.views(),
            want == registrations_view(registry.views(), asset_origin@)->Array_0,
            i <= all@.len(),
            out@.len() == i,
            forall|j: int| 0 <= j < i ==> (#[trigger] out@[j])@ == want[j],
        decreases all@.len() - i,
    {
        let r = registration(&all[i].manifest, asset_origin);
        proof {
            assert(registry.views()[i as int] == registered_view(all@[i as int]));
        }
        out.push(r);
        i += 1;
    }
    let j = Json::Array(out);
    assert(j@->Array_0 =~= want);
    j
}

/// The cards of the extensions, one after another.
pub open spec fn spec_frames(extensions: Seq<RegisteredView>, asset_origin: Seq<char>) -> Seq<char>
    decreases extensions.len(),
{
    if extensions.len() == 0 {
        Seq::empty()
    } else {
        spec_frames(extensions.drop_last(), asset_origin) + spec_extension_card(
            extensions.last().manifest,
            asset_origin,
        )
    }
}

fn frames(registry: &ExtensionRegistry, asset_origin: &str) -> (s: String)
    requires
        registry.wf(),
    ensures
        s@ == spec_frames(registry.views(), asset_origin@),
{
    let all = registry.all();
    let ghost views = registry.views();
    let mut s = String::from_str("");
    proof {
        reveal_strlit("");
        assert(views.take(0) =~= Seq::<RegisteredView>::empty());
    }
    let mut i: usize = 0;
    while i < all.len()
        invariant
            all@.map_values(|e: RegisteredExtension| registered_view(e)) == views,
            i <= all@.len(),
            s@ == spec_frames(views.take(i as int), asset_origin@),
        decreases all@.len() - i,
    {
        let card = extension_card(&all[i].manifest, asset_origin);
        s.append(card.as_str());
        proof {
            assert(views[i as int] == registered_view(all@[i as int]));
            assert(views.take(i + 1).drop_last() =~= views.take(i as int));
        }
        i += 1;
    }
    assert(views.take(all@.len() as int) =~= views);
    s
}

/// The shell page: its origin, the extensions' cards and the broker script,
/// with the nonce on its style and script.
pub open spec fn spec_shell_html(
    extensions: Seq<RegisteredView>,
    shell_origin: Seq<char>,
    asset_origin: Seq<char>,
    nonce: Seq<char>,
) -> Seq<char> {
    PAGE_OPEN@ + escaped(shell_origin) + PAGE_AFTER_ORIGIN@ + nonce + PAGE_AFTER_STYLE_NONCE@
        + spec_frames(extensions, asset_origin) + PAGE_AFTER_FRAMES@ + nonce
        + PAGE_AFTER_SCRIPT_NONCE@ + spec_broker_script(
        script_escaped(json_text(registrations_view(extensions, asset_origin))),
    ) + PAGE_CLOSE@
}

/// A rendered shell page: its bytes and its content security policy.
#[derive(Debug)]
pub struct ShellPage {
    pub bytes: Vec<u8>,
    pub csp: String,
}

fn utf8_bytes(s: &str) -> (v: Vec<u8>)
    ensures
        v@ == encode_utf8(s@),
{
    let bytes = s.as_bytes();
    let mut out: Vec<u8> = Vec::new();
    let mut i: usize = 0;
    while i < bytes.len()
        invariant
            i <= bytes@.len(),
            out@ == bytes@.take(i as int),
        decreases bytes@.len() - i,
    {
        out.push(bytes[i]);
        i += 1;
        assert(out@ =~= bytes@.take(i as int));
    }
    assert(bytes@.take(bytes@.len() as int) =~= bytes@);
    out
}

/// The shell page for the registry under `nonce`.
pub fn shell_page(registry: &ExtensionRegistry, shell_origin: &str, asset_origin: &str, nonce: &str) -> (p: ShellPage)
    requires
        registry.wf(),
    ensures
        p.bytes@ == encode_utf8(spec_shell_html(registry.views(), shell_origin@, asset_origin@, nonce@)),
        p.csp@ == spec_shell_csp(nonce@, asset_origin@),
{
    let regs = registrations(registry, asset_origin);
    let regs_text = script_json(&regs);
    let script = broker_script(regs_text.as_str());
    let cards = frames(registry, asset_origin);
    let csp = shell_csp(nonce, asset_origin);
    let origin = html_escape(shell_origin);
    let mut html = String::from_str(PAGE_OPEN);
    html.append(origin.as_str());
    html.append(PAGE_AFTER_ORIGIN);
    html.append(nonce);
    html.append(PAGE_AFTER_STYLE_NONCE);
    html.append(cards.as_str());
    html.append(PAGE_AFTER_FRAMES);
    html.append(nonce);
    html.append(PAGE_AFTER_SCRIPT_NONCE);
    html.append(script.as_str());
    html.append(PAGE_CLOSE);
    ShellPage { bytes: utf8_bytes(html.as_str()), csp }
}

/// Renders the shell page under a fresh nonce, or fails when no nonce could
/// be made.
pub fn render_shell(registry: &ExtensionRegistry, shell_origin: &str, asset_origin: &str) -> (r: Result<ShellPage, String>)
    requires
        registry.wf(),
    ensures
        r matches Ok(p) ==> exists|b: Seq<u8>|
            {
                &&& b.len() == 16
                &&& p.bytes@ == encode_utf8(
                    spec_shell_html(registry.views(), shell_origin@, asset_origin@, hex_text(b)),
                )
                &&& p.csp@ == spec_shell_csp(hex_text(b), asset_origin@)
            },
        r matches Err(e) ==> exists|m: Seq<char>| e@ == "shell CSP nonce generation failed: "@ + m,
{
    match make_nonce() {
        Ok(nonce) => Ok(shell_page(registry, shell_origin, asset_origin, nonce.as_str())),
        Err(e) => Err(e),
    }
}

} // verus!
