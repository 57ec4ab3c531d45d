//! Plugin host data types: plugin definitions and manifests, discover limits,
//! typed state operations, host errors, and the in-memory spool of one run.

use vstd::prelude::*;
use vstd::string::StringExecFns;

use crate::domain::{record_fault, Fault, SourceRecord, ValidationError};
use crate::framing::FrameError;
use crate::json::Json;
use crate::text::{blank, decimal_chars, decimal_string, is_blank, str_eq, to_owned};

verus! {

/// Absolute host-side cap used when a caller does not provide a lower limit.
pub const HOST_MAX_RECORDS: u64 = 10000;

/// Total serialized `record` payload bytes retained in the in-memory spool.
pub const HOST_MAX_RECORD_BYTES: usize = 33554432;

/// Total protocol log bytes retained in a run result.
pub const HOST_MAX_LOG_BYTES: usize = 1048576;

/// Runtime definition loaded from a plugin manifest file.
#[derive(Debug, Clone, PartialEq, Eq)]
pub struct PluginDefinition {
    pub id: String,
    pub argv: Vec<String>,
    pub env: Vec<(String, String)>,
    pub working_dir: Option<String>,
    pub manifest_path: String,
}

/// Host-side view of the plugin's manifest.
#[derive(Debug, Clone, PartialEq, Eq)]
pub struct PluginManifest {
    pub source_name: String,
    pub display_label: String,
    pub allowed_domains: Vec<String>,
    pub capabilities: Vec<String>,
}

/// A manifest as plain values.
pub struct ManifestView {
    pub source_name: Seq<char>,
    pub display_label: Seq<char>,
    pub allowed_domains: Seq<Seq<char>>,
    pub capabilities: Seq<Seq<char>>,
}

impl View for PluginManifest {
    type V = ManifestView;

    open spec fn view(&self) -> ManifestView {
        ManifestView {
            source_name: self.source_name@,
            display_label: self.display_label@,
            allowed_domains: self.allowed_domains@.map_values(|s: String| s@),
            capabilities: self.capabilities@.map_values(|s: String| s@),
        }
    }
}

/// Limits passed to `discover`.
#[derive(Debug, Clone, Copy, PartialEq, Eq)]
pub struct DiscoverLimits {
    pub max_pages: Option<u64>,
    pub per_page: Option<u64>,
    pub max_records: Option<u64>,
}

impl Default for DiscoverLimits {
    fn default() -> (l: Self)
        ensures
            l.max_pages is None,
            l.per_page is None,
            l.max_records is None,
    {
        DiscoverLimits { max_pages: None, per_page: None, max_records: None }
    }
}

pub open spec fn capped_records(requested: Option<u64>) -> u64 {
    match requested {
        Some(n) => if n < HOST_MAX_RECORDS {
            n
        } else {
            HOST_MAX_RECORDS
        },
        None => HOST_MAX_RECORDS,
    }
}

impl DiscoverLimits {
    /// The limits actually sent: `max_records` is always present and never
    /// above [`HOST_MAX_RECORDS`]; the other limits are passed through.
    pub fn with_host_caps(self) -> (l: Self)
        ensures
            l.max_pages == self.max_pages,
            l.per_page == self.per_page,
            l.max_records == Some(capped_records(self.max_records)),
    {
        let requested = match self.max_records {
            Some(n) => n,
            None => HOST_MAX_RECORDS,
        };
        let capped = if requested < HOST_MAX_RECORDS {
            requested
        } else {
            HOST_MAX_RECORDS
        };
        DiscoverLimits { max_pages: self.max_pages, per_page: self.per_page, max_records: Some(capped) }
    }
}

/// Protocol log emitted by a plugin.
#[derive(Debug, Clone, PartialEq, Eq)]
pub struct HostLog {
    pub level: String,
    pub message: String,
}

/// Typed state operations plugins may request during discovery.
#[derive(Debug, Clone, PartialEq, Eq)]
pub enum StateOperation {
    KnownSourceUrls { source_name: String },
    SourcePostSummary { source_name: String, source_url: String },
    LastSeenAt { source_name: String },
    ContentFingerprint { source_name: String, source_url: String },
}

/// A state operation as plain values.
pub enum StateOpView {
    KnownSourceUrls { source_name: Seq<char> },
    SourcePostSummary { source_name: Seq<char>, source_url: Seq<char> },
    LastSeenAt { source_name: Seq<char> },
    ContentFingerprint { source_name: Seq<char>, source_url: Seq<char> },
}

impl View for StateOperation {
    type V = StateOpView;

    open spec fn view(&self) -> StateOpView {
        match self {
            StateOperation::KnownSourceUrls { source_name } => StateOpView::KnownSourceUrls {
                source_name: source_name@,
            },
            StateOperation::SourcePostSummary { source_name, source_url } =>
                StateOpView::SourcePostSummary { source_name: source_name@, source_url: source_url@ },
            StateOperation::LastSeenAt { source_name } => StateOpView::LastSeenAt {
                source_name: source_name@,
            },
            StateOperation::ContentFingerprint { source_name, source_url } =>
                StateOpView::ContentFingerprint { source_name: source_name@, source_url: source_url@ },
        }
    }
}

/// State provider failure surfaced as a JSON-RPC error and host failure.
#[derive(Debug, Clone, PartialEq, Eq)]
pub struct StateError {
    message: String,
}

impl StateError {
    pub closed spec fn spec_message(&self) -> Seq<char> {
        self.message@
    }

    pub fn unavailable(message: &str) -> (e: Self)
        ensures
            e.spec_message() == message@,
    {
        StateError { message: to_owned(message) }
    }

    pub fn backend(message: &str) -> (e: Self)
        ensures
            e.spec_message() == message@,
    {
        StateError { message: to_owned(message) }
    }

    pub fn message(&self) -> (m: &str)
        ensures
            m@ == self.spec_message(),
    {
        self.message.as_str()
    }
}

/// Fetch failure surfaced as a JSON-RPC error and host failure.
#[derive(Debug, Clone, PartialEq, Eq)]
pub struct HostFetchError {
    message: String,
}

impl HostFetchError {
    pub closed spec fn spec_message(&self) -> Seq<char> {
        self.message@
    }

    pub fn unavailable(message: &str) -> (e: Self)
        ensures
            e.spec_message() == message@,
    {
        HostFetchError { message: to_owned(message) }
    }

    pub fn backend(message: &str) -> (e: Self)
        ensures
            e.spec_message() == message@,
    {
        HostFetchError { message: to_owned(message) }
    }

    pub fn message(&self) -> (m: &str)
        ensures
            m@ == self.spec_message(),
    {
        self.message.as_str()
    }
}

/// Explicit no-state provider used by callers that have not wired DB state:
/// every query fails as unavailable.
#[derive(Debug, Clone, Copy)]
pub struct NoStateProvider {
    marker: (),
}

impl NoStateProvider {
    pub fn new() -> Self {
        NoStateProvider { marker: () }
    }

    pub fn query(&self, op: &StateOperation) -> (r: Result<(), StateError>)
        ensures
            r matches Err(e) && e.spec_message() == "state provider is not configured"@,
    {
        Err(StateError::unavailable("state provider is not configured"))
    }
}

/// Plugin host runtime settings.
#[derive(Debug, Clone)]
pub struct PluginHost {
    host_version: String,
    shutdown_grace_ms: u64,
}

impl PluginHost {
    pub closed spec fn spec_host_version(&self) -> Seq<char> {
        self.host_version@
    }

    pub closed spec fn spec_shutdown_grace_ms(&self) -> u64 {
        self.shutdown_grace_ms
    }

    /// A host with the given version string and a 150 ms shutdown grace.
    pub fn new(host_version: &str) -> (h: Self)
        ensures
            h.spec_host_version() == host_version@,
            h.spec_shutdown_grace_ms() == 150,
    {
        PluginHost { host_version: to_owned(host_version), shutdown_grace_ms: 150 }
    }

    pub fn host_version(&self) -> (v: &str)
        ensures
            v@ == self.spec_host_version(),
    {
        self.host_version.as_str()
    }

    pub fn shutdown_grace_ms(&self) -> (g: u64)
        ensures
            g == self.spec_shutdown_grace_ms(),
    {
        self.shutdown_grace_ms
    }
}

/// Host runtime errors. Failures of outside parts (I/O, JSON text, process
/// status) are carried by their messages.
#[derive(Debug)]
pub enum HostError {
    Discovery(String),
    Frame(FrameError),
    Io(String),
    Json(String),
    Fetch(HostFetchError),
    PluginError(Json),
    PluginDidNotExit,
    PluginExitStatus(String),
    PluginExited(Option<String>),
    FrameQueueFull,
    Protocol(String),
    State(StateError),
    Timeout,
    Cancelled,
    Validation(ValidationError),
}

/// The error of one step, as a value.
pub enum HostFault {
    Protocol(Seq<char>),
    PluginError(Json),
    Json(Seq<char>),
    Validation(Fault),
    Other,
}

pub open spec fn host_fault(e: HostError) -> HostFault {
    match e {
        HostError::Protocol(m) => HostFault::Protocol(m@),
        HostError::Json(m) => HostFault::Json(m@),
        HostError::PluginError(v) => HostFault::PluginError(v),
        HostError::Validation(v) => HostFault::Validation(v@),
        _ => HostFault::Other,
    }
}

pub open spec fn protocol(m: Seq<char>) -> HostFault {
    HostFault::Protocol(m)
}

pub(crate) fn protocol_error(m: String) -> (e: HostError)
    ensures
        host_fault(e) == protocol(m@),
        e is Protocol,
{
    HostError::Protocol(m)
}

/// A record value delivered by the plugin: its encoded size in bytes, and the
/// record read from it (or why it could not be read).
#[derive(Debug)]
pub struct RecordInput {
    pub encoded_len: usize,
    pub record: Result<SourceRecord, String>,
}

/// The in-memory spool of one discover run.
pub struct RunState {
    records: Vec<SourceRecord>,
    logs: Vec<HostLog>,
    max_records: Option<u64>,
    record_bytes: usize,
    log_bytes: usize,
}

pub open spec fn sat_add(a: int, b: int, max: int) -> int {
    if a + b > max {
        max
    } else {
        a + b
    }
}

/// Saturating sum of encoded sizes.
pub open spec fn sizes_total(inputs: Seq<RecordInput>) -> int
    decreases inputs.len(),
{
    if inputs.len() == 0 {
        0
    } else {
        sat_add(sizes_total(inputs.drop_last()), inputs.last().encoded_len as int, usize::MAX as int)
    }
}

/// `str::len`: the UTF-8 byte length.
pub open spec fn byte_len(s: Seq<char>) -> int {
    (vstd::utf8::encode_utf8(s).len() as usize) as int
}

pub open spec fn log_len(level: Seq<char>, message: Seq<char>) -> int {
    sat_add(byte_len(level), byte_len(message), usize::MAX as int)
}

impl RunState {
    /// The spool's bounds: never more records than allowed, never more record
    /// or log bytes than the host caps.
    pub closed spec fn wf(&self) -> bool {
        &&& self.record_bytes <= HOST_MAX_RECORD_BYTES
        &&& self.log_bytes <= HOST_MAX_LOG_BYTES
        &&& self.max_records matches Some(m) ==> self.records@.len() <= m
    }

    /// What `wf` promises, in the open.
    pub proof fn lemma_bounds(&self)
        requires
            self.wf(),
        ensures
            self.spec_record_bytes() <= HOST_MAX_RECORD_BYTES,
            self.spec_log_bytes() <= HOST_MAX_LOG_BYTES,
            self.spec_max_records() matches Some(m) ==> self.spec_records().len() <= m,
    {
    }

    pub closed spec fn spec_records(&self) -> Seq<SourceRecord> {
        self.records@
    }

    pub closed spec fn spec_logs(&self) -> Seq<HostLog> {
        self.logs@
    }

    pub closed spec fn spec_max_records(&self) -> Option<u64> {
        self.max_records
    }

    pub closed spec fn spec_record_bytes(&self) -> nat {
        self.record_bytes as nat
    }

    pub closed spec fn spec_log_bytes(&self) -> nat {
        self.log_bytes as nat
    }

    pub fn new(max_records: Option<u64>) -> (s: Self)
        ensures
            s.wf(),
            s.spec_records().len() == 0,
            s.spec_logs().len() == 0,
            s.spec_max_records() == max_records,
            s.spec_record_bytes() == 0,
            s.spec_log_bytes() == 0,
    {
        RunState { records: Vec::new(), logs: Vec::new(), max_records, record_bytes: 0, log_bytes: 0 }
    }

    pub fn spooled_records(&self) -> (n: u64)
        ensures
            n == (if self.spec_records().len() > u64::MAX {
                u64::MAX as int
            } else {
                self.spec_records().len() as int
            }),
    {
        let n = self.records.len();
        if n as u128 > u64::MAX as u128 {
            u64::MAX
        } else {
            n as u64
        }
    }

    pub fn records(&self) -> (r: &Vec<SourceRecord>)
        ensures
            r@ == self.spec_records(),
    {
        &self.records
    }

    pub fn logs(&self) -> (r: &Vec<HostLog>)
        ensures
            r@ == self.spec_logs(),
    {
        &self.logs
    }

    /// Gives back the spooled records and logs.
    pub fn into_parts(self) -> (r: (Vec<SourceRecord>, Vec<HostLog>))
        ensures
            r.0@ == self.spec_records(),
            r.1@ == self.spec_logs(),
    {
        (self.records, self.logs)
    }

    /// Records one protocol log line, unless the log budget would be exceeded.
    pub fn push_log(&mut self, level: String, message: String) -> (r: Result<(), HostError>)
        requires
            old(self).wf(),
        ensures
            final(self).wf(),
            final(self).spec_records() == old(self).spec_records(),
            final(self).spec_max_records() == old(self).spec_max_records(),
            final(self).spec_record_bytes() == old(self).spec_record_bytes(),
            ({
                let next = sat_add(
                    old(self).spec_log_bytes() as int,
                    log_len(level@, message@),
                    usize::MAX as int,
                );
                if next > HOST_MAX_LOG_BYTES {
                    &&& host_fault(r->Err_0) == protocol(
                        "log spool exceeded byte limit: "@ + decimal_chars(next as nat) + " > "@
                            + decimal_chars(HOST_MAX_LOG_BYTES as nat),
                    )
                    &&& r is Err
                    &&& final(self).spec_logs() == old(self).spec_logs()
                    &&& final(self).spec_log_bytes() == old(self).spec_log_bytes()
                } else {
                    &&& r is Ok
                    &&& final(self).spec_logs() == old(self).spec_logs().push(
                        HostLog { level, message },
                    )
                    &&& final(self).spec_log_bytes() == next
                }
            }),
    {
        let incoming = level.as_str().len().saturating_add(message.as_str().len());
        let next = self.log_bytes.saturating_add(incoming);
        if next > HOST_MAX_LOG_BYTES {
            let mut m = String::from_str("log spool exceeded byte limit: ");
            m.append(decimal_string(next as u64).as_str());
            m.append(" > ");
            m.append(decimal_string(HOST_MAX_LOG_BYTES as u64).as_str());
            return Err(protocol_error(m));
        }
        self.log_bytes = next;
        self.logs.push(HostLog { level, message });
        Ok(())
    }
}

/// Whether a batch breaks the record-count or byte budget of the spool.
pub open spec fn over_budget(
    spooled: nat,
    max_records: Option<u64>,
    record_bytes: nat,
    inputs: Seq<RecordInput>,
) -> bool {
    let next_count = sat_add(spooled as int, inputs.len() as int, u64::MAX as int);
    let next_bytes = sat_add(record_bytes as int, sizes_total(inputs), usize::MAX as int);
    (max_records is Some && next_count > max_records.unwrap()) || next_bytes > HOST_MAX_RECORD_BYTES
}

/// The outcome of spooling a batch, as a value: the reservation checks come
/// first, then each record in turn is read and validated against the source.
pub open spec fn spool_fault(
    spooled: nat,
    max_records: Option<u64>,
    record_bytes: nat,
    source_name: Seq<char>,
    inputs: Seq<RecordInput>,
) -> Option<HostFault> {
    let next_count = sat_add(spooled as int, inputs.len() as int, u64::MAX as int);
    let next_bytes = sat_add(record_bytes as int, sizes_total(inputs), usize::MAX as int);
    if max_records is Some && next_count > max_records.unwrap() {
        Some(
            protocol(
                "record spool exceeded max_records: "@ + decimal_chars(next_count as nat) + " > "@
                    + decimal_chars(max_records.unwrap() as nat),
            ),
        )
    } else if next_bytes > HOST_MAX_RECORD_BYTES {
        Some(
            protocol(
                "record spool exceeded byte limit: "@ + decimal_chars(next_bytes as nat) + " > "@
                    + decimal_chars(HOST_MAX_RECORD_BYTES as nat),
            ),
        )
    } else {
        item_fault(source_name, inputs, 0)
    }
}

/// How many inputs, from `i` on, are read and validated before the first one
/// that fails (all of them when none fails).
pub open spec fn item_ok_len(source_name: Seq<char>, inputs: Seq<RecordInput>, i: int) -> int
    decreases inputs.len() - i,
{
    if i < 0 || i >= inputs.len() {
        inputs.len() as int
    } else {
        match inputs[i].record {
            Err(_) => i,
            Ok(r) => if record_fault(r) is Some || r.source_name@ != source_name {
                i
            } else {
                item_ok_len(source_name, inputs, i + 1)
            },
        }
    }
}

/// The first input, from `i` on, that cannot be read or fails validation.
pub open spec fn item_fault(source_name: Seq<char>, inputs: Seq<RecordInput>, i: int) -> Option<
    HostFault,
>
    decreases inputs.len() - i,
{
    if i < 0 || i >= inputs.len() {
        None
    } else {
        match inputs[i].record {
            Err(m) => Some(HostFault::Json(m@)),
            Ok(r) => if record_fault(r) is Some {
                Some(HostFault::Validation(record_fault(r).unwrap()))
            } else if r.source_name@ != source_name {
                Some(
                    HostFault::Validation(
                        Fault::SourceNameMismatch { expected: source_name, actual: r.source_name@ },
                    ),
                )
            } else {
                item_fault(source_name, inputs, i + 1)
            },
        }
    }
}

/// The records of the inputs before index `i`.
/// A record that passes its own checks and belongs to `source_name`: what
/// `validate_for_source` accepts.
pub open spec fn valid_for_source(r: SourceRecord, source_name: Seq<char>) -> bool {
    record_fault(r) is None && r.source_name@ == source_name
}

proof fn lemma_ok_prefix(source_name: Seq<char>, inputs: Seq<RecordInput>, i: int)
    requires
        0 <= i <= inputs.len(),
    ensures
        i <= item_ok_len(source_name, inputs, i) <= inputs.len(),
        forall|j: int|
            i <= j < item_ok_len(source_name, inputs, i) ==> (#[trigger] inputs[j]).record is Ok
                && valid_for_source(inputs[j].record->Ok_0, source_name),
    decreases inputs.len() - i,
{
    if i < inputs.len() {
        match inputs[i].record {
            Err(_) => {},
            Ok(r) => if record_fault(r) is Some || r.source_name@ != source_name {
            } else {
                lemma_ok_prefix(source_name, inputs, i + 1);
            },
        }
    }
}

proof fn lemma_input_records_index(inputs: Seq<RecordInput>, k: int)
    requires
        0 <= k <= inputs.len(),
    ensures
        input_records(inputs, k).len() == k,
        forall|j: int| 0 <= j < k ==> #[trigger] input_records(inputs, k)[j] == inputs[j].record->Ok_0,
    decreases k,
{
    if k > 0 {
        lemma_input_records_index(inputs, k - 1);
    }
}

/// The records a batch adds are each valid for `source_name`.
proof fn lemma_appended_valid(before: Seq<SourceRecord>, source_name: Seq<char>, inputs: Seq<RecordInput>)
    ensures
        ({
            let after = before + input_records(inputs, item_ok_len(source_name, inputs, 0));
            forall|j: int|
                before.len() <= j < after.len() ==> valid_for_source(#[trigger] after[j], source_name)
        }),
{
    let k = item_ok_len(source_name, inputs, 0);
    lemma_ok_prefix(source_name, inputs, 0);
    lemma_input_records_index(inputs, k);
    let after = before + input_records(inputs, k);
    assert forall|j: int| before.len() <= j < after.len() implies valid_for_source(#[trigger] after[j], source_name) by {
        assert(after[j] == input_records(inputs, k)[j - before.len()]);
        assert(inputs[j - before.len()].record is Ok);
    }
}

pub open spec fn input_records(inputs: Seq<RecordInput>, i: int) -> Seq<SourceRecord>
    decreases i,
{
    if i <= 0 || i > inputs.len() {
        Seq::empty()
    } else {
        input_records(inputs, i - 1).push(inputs[i - 1].record->Ok_0)
    }
}

impl RunState {
    /// Spools a batch of records delivered by the plugin whose manifest names
    /// `source_name`: first the count and byte budgets are reserved for the
    /// whole batch, then each record is read and validated and appended.
    pub fn spool(&mut self, source_name: &str, inputs: Vec<RecordInput>) -> (r: Result<
        (),
        HostError,
    >)
        requires
            old(self).wf(),
        ensures
            final(self).wf(),
            final(self).spec_logs() == old(self).spec_logs(),
            final(self).spec_log_bytes() == old(self).spec_log_bytes(),
            final(self).spec_max_records() == old(self).spec_max_records(),
            ({
                let f = spool_fault(
                    old(self).spec_records().len(),
                    old(self).spec_max_records(),
                    old(self).spec_record_bytes(),
                    source_name@,
                    inputs@,
                );
                &&& f is None ==> r is Ok && final(self).spec_records() == old(
                    self,
                ).spec_records() + input_records(inputs@, inputs@.len() as int)
                &&& f is Some ==> r is Err && host_fault(r->Err_0) == f.unwrap()
            }),
            over_budget(
                old(self).spec_records().len(),
                old(self).spec_max_records(),
                old(self).spec_record_bytes(),
                inputs@,
            ) ==> final(self).spec_records() == old(self).spec_records()
                && final(self).spec_record_bytes() == old(self).spec_record_bytes(),
            !over_budget(
                old(self).spec_records().len(),
                old(self).spec_max_records(),
                old(self).spec_record_bytes(),
                inputs@,
            ) ==> final(self).spec_record_bytes() == sat_add(
                old(self).spec_record_bytes() as int,
                sizes_total(inputs@),
                usize::MAX as int,
            ) && final(self).spec_records() == old(self).spec_records() + input_records(
                inputs@,
                item_ok_len(source_name@, inputs@, 0),
            ),
            final(self).spec_records().len() >= old(self).spec_records().len(),
            final(self).spec_records().subrange(0, old(self).spec_records().len() as int)
                == old(self).spec_records(),
            forall|j: int|
                old(self).spec_records().len() <= j < final(self).spec_records().len()
                    ==> valid_for_source(#[trigger] final(self).spec_records()[j], source_name@),
    {
        proof {
            lemma_appended_valid(self.records@, source_name@, inputs@);
            let after = self.records@ + input_records(inputs@, item_ok_len(source_name@, inputs@, 0));
            assert(after.subrange(0, self.records@.len() as int) =~= self.records@);
            assert(self.records@.subrange(0, self.records@.len() as int) =~= self.records@);
        }
        let ghost inputs0 = inputs@;
        let n = inputs.len();
        let mut incoming_bytes: usize = 0;
        let mut i: usize = 0;
        while i < n
            invariant
                n == inputs@.len(),
                i <= n,
                incoming_bytes == sizes_total(inputs@.take(i as int)),
            decreases n - i,
        {
            proof {
                assert(inputs@.take(i + 1).drop_last() =~= inputs@.take(i as int));
            }
            incoming_bytes = incoming_bytes.saturating_add(inputs[i].encoded_len);
            i += 1;
        }
        proof {
            assert(inputs@.take(n as int) =~= inputs@);
        }
        let spooled = self.spooled_records();
        let incoming = if n as u128 > u64::MAX as u128 {
            u64::MAX
        } else {
            n as u64
        };
        match self.max_records {
            Some(max) => {
                let next = spooled.saturating_add(incoming);
                if next > max {
                    let mut m = String::from_str("record spool exceeded max_records: ");
                    m.append(decimal_string(next).as_str());
                    m.append(" > ");
                    m.append(decimal_string(max).as_str());
                    return Err(protocol_error(m));
                }
            },
            None => {},
        }
        let next_bytes = self.record_bytes.saturating_add(incoming_bytes);
        if next_bytes > HOST_MAX_RECORD_BYTES {
            let mut m = String::from_str("record spool exceeded byte limit: ");
            m.append(decimal_string(next_bytes as u64).as_str());
            m.append(" > ");
            m.append(decimal_string(HOST_MAX_RECORD_BYTES as u64).as_str());
            return Err(protocol_error(m));
        }
        self.record_bytes = next_bytes;
        let ghost before = self.records@;
        let r = append_records(&mut self.records, source_name, inputs);
        let now = self.records.len();
        proof {
            assert(now as int == self.records@.len());
        }
        r
    }
}

proof fn lemma_input_records_len(inputs: Seq<RecordInput>, i: int)
    requires
        0 <= i <= inputs.len(),
    ensures
        input_records(inputs, i).len() == i,
    decreases i,
{
    if i > 0 {
        lemma_input_records_len(inputs, i - 1);
    }
}

#[verifier::rlimit(40)]
fn append_records(records: &mut Vec<SourceRecord>, source_name: &str, inputs: Vec<RecordInput>) -> (r:
    Result<(), HostError>)
    ensures
        final(records)@.len() <= old(records)@.len() + inputs@.len(),
        item_fault(source_name@, inputs@, 0) is None ==> r is Ok && final(records)@ == old(
            records,
        )@ + input_records(inputs@, inputs@.len() as int),
        item_fault(source_name@, inputs@, 0) is Some ==> r is Err && host_fault(r->Err_0)
            == item_fault(source_name@, inputs@, 0).unwrap(),
        final(records)@ == old(records)@ + input_records(inputs@, item_ok_len(source_name@, inputs@, 0)),
{
    let ghost inputs0 = inputs@;
    let ghost start = records@;
    let n = inputs.len();
    let mut pending = inputs;
    let mut k: usize = 0;
    while k < n
        invariant
            inputs0 == inputs@,
            start == old(records)@,
            n == inputs0.len(),
            k <= n,
            pending@ == inputs0.subrange(k as int, n as int),
            records@ == start + input_records(inputs0, k as int),
            records@.len() == start.len() + k,
            item_fault(source_name@, inputs0, 0) == item_fault(source_name@, inputs0, k as int),
            item_ok_len(source_name@, inputs0, 0) == item_ok_len(source_name@, inputs0, k as int),
        decreases n - k,
    {
        proof {
            lemma_input_records_len(inputs0, k + 1);
        }
        let input = pending.remove(0);
        assert(input == inputs0[k as int]);
        assert(pending@ =~= inputs0.subrange(k + 1, n as int));
        match input.record {
            Err(m) => {
                return Err(HostError::Json(m));
            },
            Ok(record) => {
                match record.validate_for_source(source_name) {
                    Err(e) => {
                        return Err(HostError::Validation(e));
                    },
                    Ok(()) => {},
                }
                records.push(record);
            },
        }
        k += 1;
        assert(records@ =~= start + input_records(inputs0, k as int));
    }
    Ok(())
}

} // verus!
