//! The rules of the core database that do not touch SQLite: which existing
//! files may be opened, which columns a table lacks, how a record's content
//! fingerprint is written, and what an upsert keeps of the stored row.

use vstd::prelude::*;
use vstd::string::StringExecFns;

use crate::domain::{ExternalLink, SourceRecord, ValidationError};
use crate::json::{
    member_views, object_of, opt_text, opt_text_view, push_member, texts, texts_view, Json, JsonView,
};
use crate::text::{decimal_chars, decimal_string, join2, str_eq, string_from_chars, to_owned};
use crate::ui::{hex_digit};

verus! {

/// Newest schema version this build knows.
pub const LATEST_SCHEMA_VERSION: i64 = 1;

/// Summary returned by `inspect`.
#[derive(Debug, Clone, PartialEq, Eq)]
pub struct DbInspection {
    pub schema_version: i64,
    pub source_posts: i64,
    pub performers: i64,
    pub covers: i64,
    pub pages: i64,
    pub external_links: i64,
}

/// Lightweight state returned to plugins via typed `state_query`.
#[derive(Debug, Clone, PartialEq, Eq)]
pub struct SourcePostSummary {
    pub exists: bool,
    pub title: Option<String>,
    pub last_seen_at: Option<String>,
}

/// Transaction ingest result.
#[derive(Debug, Clone, PartialEq, Eq)]
pub struct IngestReport {
    pub records: usize,
}

/// Database and validation errors. Failures of SQLite and of JSON encoding
/// are carried by their messages; paths by their text.
#[derive(Debug)]
pub enum DbError {
    DatabaseTooNew(i64),
    IncompatibleSchema { table: String, missing_columns: Vec<String> },
    MissingTable(String),
    NeedsMigration(String),
    Sqlite(String),
    Json(String),
    MissingDatabase(String),
    UnsupportedSchemaVersion(i64),
    UnknownExistingDatabase(String),
    Validation(ValidationError),
}

/// How an existing database file may be used once its schema version and
/// its number of user tables are known.
#[derive(Debug, Clone, Copy, PartialEq, Eq)]
pub enum SchemaCheck {
    /// An empty file: migrations may create the schema.
    Empty,
    /// The tables of this schema version must be checked.
    ValidateVersion(i64),
}

/// Why an existing file may not be used, as a value.
pub enum OpenFault {
    NeedsMigration,
    UnknownExisting,
    TooNew(i64),
    Unsupported(i64),
}

/// The decision for a file about to be initialized (`for_init`) or inspected.
pub open spec fn spec_openable(version: i64, user_tables: i64, for_init: bool) -> Result<
    SchemaCheck,
    OpenFault,
> {
    if version == 0 && user_tables == 0 {
        if for_init {
            Ok(SchemaCheck::Empty)
        } else {
            Err(OpenFault::NeedsMigration)
        }
    } else if version == 0 {
        Err(OpenFault::UnknownExisting)
    } else if version > LATEST_SCHEMA_VERSION {
        Err(OpenFault::TooNew(version))
    } else if version == 1 {
        Ok(SchemaCheck::ValidateVersion(version))
    } else {
        Err(OpenFault::Unsupported(version))
    }
}

pub open spec fn open_fault(e: DbError, path: Seq<char>) -> Option<OpenFault> {
    match e {
        DbError::NeedsMigration(p) => if p@ == path {
            Some(OpenFault::NeedsMigration)
        } else {
            None
        },
        DbError::UnknownExistingDatabase(p) => if p@ == path {
            Some(OpenFault::UnknownExisting)
        } else {
            None
        },
        DbError::DatabaseTooNew(v) => Some(OpenFault::TooNew(v)),
        DbError::UnsupportedSchemaVersion(v) => Some(OpenFault::Unsupported(v)),
        _ => None,
    }
}

/// An existing file is opened for `init-db` only when it is empty or a core
/// database of a supported version; for inspection an empty file needs
/// migration first. Unknown databases are never touched.
pub fn check_openable(version: i64, user_tables: i64, for_init: bool, path: &str) -> (r: Result<
    SchemaCheck,
    DbError,
>)
    ensures
        match spec_openable(version, user_tables, for_init) {
            Ok(c) => r == Ok::<SchemaCheck, DbError>(c),
            Err(f) => r matches Err(e) && open_fault(e, path@) == Some(f),
        },
{
    if version == 0 && user_tables == 0 {
        if for_init {
            Ok(SchemaCheck::Empty)
        } else {
            Err(DbError::NeedsMigration(to_owned(path)))
        }
    } else if version == 0 {
        Err(DbError::UnknownExistingDatabase(to_owned(path)))
    } else if version > LATEST_SCHEMA_VERSION {
        Err(DbError::DatabaseTooNew(version))
    } else if version == 1 {
        Ok(SchemaCheck::ValidateVersion(version))
    } else {
        Err(DbError::UnsupportedSchemaVersion(version))
    }
}

/// The expected columns that a table lacks, in the expected order.
pub open spec fn missing_from(expected: Seq<Seq<char>>, actual: Seq<Seq<char>>) -> Seq<Seq<char>>
    decreases expected.len(),
{
    if expected.len() == 0 {
        Seq::empty()
    } else if actual.contains(expected.last()) {
        missing_from(expected.drop_last(), actual)
    } else {
        missing_from(expected.drop_last(), actual).push(expected.last())
    }
}

pub open spec fn str_views(v: Seq<&str>) -> Seq<Seq<char>> {
    v.map_values(|s: &str| s@)
}

pub open spec fn string_views(v: Seq<String>) -> Seq<Seq<char>> {
    v.map_values(|s: String| s@)
}

fn contains_column(actual: &[String], name: &str) -> (r: bool)
    ensures
        r == string_views(actual@).contains(name@),
{
    let ghost views = string_views(actual@);
    let mut i: usize = 0;
    while i < actual.len()
        invariant
            i <= actual@.len(),
            views == string_views(actual@),
            forall|j: int| 0 <= j < i ==> views[j] != name@,
        decreases actual@.len() - i,
    {
        if str_eq(actual[i].as_str(), name) {
            assert(views[i as int] == name@);
            return true;
        }
        i += 1;
    }
    false
}

/// The columns of `expected` that `actual` does not list.
pub fn missing_columns(expected: &[&str], actual: &[String]) -> (r: Vec<String>)
    ensures
        string_views(r@) == missing_from(str_views(expected@), string_views(actual@)),
{
    let mut out: Vec<String> = Vec::new();
    let mut i: usize = 0;
    assert(string_views(out@) =~= Seq::<Seq<char>>::empty());
    while i < expected.len()
        invariant
            i <= expected@.len(),
            string_views(out@) == missing_from(
                str_views(expected@).take(i as int),
                string_views(actual@),
            ),
        decreases expected@.len() - i,
    {
        let name = expected[i];
        let ghost before = string_views(out@);
        proof {
            assert(str_views(expected@).take(i + 1).drop_last() =~= str_views(expected@).take(
                i as int,
            ));
            assert(str_views(expected@).take(i + 1).last() == name@);
        }
        if !contains_column(actual, name) {
            out.push(to_owned(name));
            proof {
                assert(string_views(out@) =~= before.push(name@));
            }
        }
        i += 1;
    }
    assert(str_views(expected@).take(expected@.len() as int) =~= str_views(expected@));
    out
}

/// A table's columns: every expected one must be present.
pub fn check_table_columns(table: &str, expected: &[&str], actual: &[String]) -> (r: Result<
    (),
    DbError,
>)
    ensures
        missing_from(str_views(expected@), string_views(actual@)).len() == 0 ==> r is Ok,
        missing_from(str_views(expected@), string_views(actual@)).len() > 0 ==> (r matches Err(
            DbError::IncompatibleSchema { table: t, missing_columns: m },
        ) && t@ == table@ && string_views(m@) == missing_from(
            str_views(expected@),
            string_views(actual@),
        )),
{
    let missing = missing_columns(expected, actual);
    if missing.len() == 0 {
        Ok(())
    } else {
        Err(DbError::IncompatibleSchema { table: to_owned(table), missing_columns: missing })
    }
}

/// One step of FNV-1a over 64 bits.
pub open spec fn fnv_step(h: u64, b: u8) -> u64 {
    vstd::wrapping::u64_specs::wrapping_mul(h ^ (b as u64), 0x100000001b3u64)
}

/// FNV-1a, 64 bits, of a byte sequence.
pub open spec fn spec_fnv1a64(bytes: Seq<u8>) -> u64
    decreases bytes.len(),
{
    if bytes.len() == 0 {
        0xcbf29ce484222325u64
    } else {
        fnv_step(spec_fnv1a64(bytes.drop_last()), bytes.last())
    }
}

pub fn fnv1a64(bytes: &[u8]) -> (h: u64)
    ensures
        h == spec_fnv1a64(bytes@),
{
    let mut hash: u64 = 0xcbf29ce484222325u64;
    let mut i: usize = 0;
    while i < bytes.len()
        invariant
            i <= bytes@.len(),
            hash == spec_fnv1a64(bytes@.take(i as int)),
        decreases bytes@.len() - i,
    {
        proof {
            assert(bytes@.take(i + 1).drop_last() =~= bytes@.take(i as int));
        }
        hash = hash ^ (bytes[i] as u64);
        hash = hash.wrapping_mul(0x100000001b3u64);
        i += 1;
    }
    assert(bytes@.take(bytes@.len() as int) =~= bytes@);
    hash
}

/// The `n` lowest hexadecimal digits of `h`, most significant first.
pub open spec fn hex_fixed(h: nat, n: nat) -> Seq<char>
    decreases n,
{
    if n == 0 {
        Seq::empty()
    } else {
        hex_fixed(h / 16, (n - 1) as nat) + seq![hex_digit((h % 16) as u8)]
    }
}

fn hex_fixed_exec(h: u64, n: usize) -> (r: Vec<char>)
    ensures
        r@ == hex_fixed(h as nat, n as nat),
    decreases n,
{
    if n == 0 {
        Vec::new()
    } else {
        let mut v = hex_fixed_exec(h / 16, n - 1);
        let d = (h % 16) as u8;
        let c = if d < 10 {
            (48u8 + d) as char
        } else {
            (87u8 + d) as char
        };
        v.push(c);
        v
    }
}

/// The stored form of a content fingerprint: `fnv1a64:` and sixteen
/// lowercase hexadecimal digits.
pub open spec fn spec_fingerprint_text(hash: u64) -> Seq<char> {
    "fnv1a64:"@ + hex_fixed(hash as nat, 16)
}

pub fn fingerprint_text(hash: u64) -> (s: String)
    ensures
        s@ == spec_fingerprint_text(hash),
{
    let digits = hex_fixed_exec(hash, 16);
    let d = string_from_chars(digits.as_slice());
    join2("fnv1a64:", d.as_str())
}

/// The content fingerprint of a record from the canonical JSON text of its
/// content.
pub fn content_fingerprint(canonical: &str) -> (s: String)
    ensures
        s@ == spec_fingerprint_text(spec_fnv1a64(vstd::utf8::encode_utf8(canonical@))),
{
    let bytes = canonical.as_bytes();
    proof {
        assert(bytes@ == vstd::utf8::encode_utf8(canonical@));
    }
    fingerprint_text(fnv1a64(bytes))
}

pub open spec fn opt_view(o: Option<String>) -> Option<Seq<char>> {
    match o {
        Some(s) => Some(s@),
        None => None,
    }
}

/// What the fingerprint reads of an external link, with its metadata.
pub open spec fn link_input_view(l: ExternalLink, metadata: JsonView) -> JsonView {
    JsonView::Object(
        seq![
            ("url"@, JsonView::String(l.url@)),
            ("provider"@, opt_text_view(opt_view(l.provider))),
            ("label"@, opt_text_view(opt_view(l.label))),
            ("kind"@, opt_text_view(opt_view(l.kind))),
            ("external_id"@, opt_text_view(opt_view(l.external_id))),
            ("metadata"@, metadata),
        ],
    )
}

/// The content of a record that its fingerprint covers: fifteen members,
/// with the release date that the upsert stores, the record's `extra`
/// object, and each link with its metadata (`link_metadata`, link by link).
pub open spec fn spec_fingerprint_input(
    r: SourceRecord,
    release_date: Option<Seq<char>>,
    extra: JsonView,
    link_metadata: Seq<JsonView>,
) -> JsonView {
    JsonView::Object(
        seq![
            ("source_name"@, JsonView::String(r.source_name@)),
            ("source_url"@, JsonView::String(r.source_url@)),
            ("title"@, JsonView::String(r.title@)),
            ("brand_raw"@, JsonView::String(r.brand_raw@)),
            ("performers_raw"@, texts_view(r.performers_raw@)),
            ("cover_urls"@, texts_view(r.cover_urls@)),
            ("page_urls"@, texts_view(r.page_urls@)),
            (
                "external_links"@,
                JsonView::Array(
                    Seq::new(
                        r.external_links@.len(),
                        |i: int| link_input_view(r.external_links@[i], link_metadata[i]),
                    ),
                ),
            ),
            ("issue_no"@, opt_text_view(opt_view(r.issue_no))),
            ("release_date"@, opt_text_view(release_date)),
            ("post_date"@, opt_text_view(opt_view(r.post_date))),
            ("brand_normalized"@, opt_text_view(opt_view(r.brand_normalized))),
            ("normalizer_id"@, opt_text_view(opt_view(r.normalizer_id))),
            ("normalizer_version"@, opt_text_view(opt_view(r.normalizer_version))),
            ("extra"@, extra),
        ],
    )
}

fn link_input(l: &ExternalLink, metadata: Json) -> (j: Json)
    ensures
        j@ == link_input_view(*l, metadata@),
{
    let mut m: Vec<(String, Json)> = Vec::new();
    push_member(&mut m, "url", Json::String(l.url.clone()));
    push_member(&mut m, "provider", opt_text(&l.provider));
    push_member(&mut m, "label", opt_text(&l.label));
    push_member(&mut m, "kind", opt_text(&l.kind));
    push_member(&mut m, "external_id", opt_text(&l.external_id));
    push_member(&mut m, "metadata", metadata);
    let j = object_of(m);
    assert(j@->Object_0 =~~= link_input_view(*l, metadata@)->Object_0);
    j
}

/// The JSON value whose canonical text the content fingerprint of a record
/// hashes. `extra` is the record's `extra` object and `link_metadata` the
/// metadata object of each of its links, in order, both as JSON values.
pub fn fingerprint_input(
    record: &SourceRecord,
    release_date: Option<&str>,
    extra: Json,
    link_metadata: Vec<Json>,
) -> (j: Json)
    requires
        link_metadata@.len() == record.external_links@.len(),
    ensures
        j@ == spec_fingerprint_input(
            *record,
            match release_date {
                Some(d) => Some(d@),
                None => None,
            },
            extra@,
            link_metadata@.map_values(|x: Json| x@),
        ),
{
    let ghost metas = link_metadata@.map_values(|x: Json| x@);
    let n = record.external_links.len();
    let mut links: Vec<Json> = Vec::new();
    let ghost all = link_metadata@;
    let mut pending = link_metadata;
    let mut i: usize = 0;
    while i < n
        invariant
            i <= n,
            n == record.external_links@.len(),
            all.len() == n,
            metas == all.map_values(|x: Json| x@),
            pending@ == all.subrange(i as int, n as int),
            links@.len() == i,
            forall|t: int| 0 <= t < i ==> (#[trigger] links@[t])@ == link_input_view(
                record.external_links@[t],
                metas[t],
            ),
        decreases n - i,
    {
        let meta = pending.remove(0);
        assert(meta == all[i as int]);
        links.push(link_input(&record.external_links[i], meta));
        i += 1;
        assert(pending@ =~= all.subrange(i as int, n as int));
    }
    let links = Json::Array(links);
    assert(links@->Array_0 =~= Seq::new(
        record.external_links@.len(),
        |t: int| link_input_view(record.external_links@[t], metas[t]),
    ));
    let release = match release_date {
        Some(d) => Json::String(to_owned(d)),
        None => Json::Null,
    };
    let mut m: Vec<(String, Json)> = Vec::new();
    push_member(&mut m, "source_name", Json::String(record.source_name.clone()));
    push_member(&mut m, "source_url", Json::String(record.source_url.clone()));
    push_member(&mut m, "title", Json::String(record.title.clone()));
    push_member(&mut m, "brand_raw", Json::String(record.brand_raw.clone()));
    push_member(&mut m, "performers_raw", texts(&record.performers_raw));
    push_member(&mut m, "cover_urls", texts(&record.cover_urls));
    push_member(&mut m, "page_urls", texts(&record.page_urls));
    push_member(&mut m, "external_links", links);
    push_member(&mut m, "issue_no", opt_text(&record.issue_no));
    push_member(&mut m, "release_date", release);
    push_member(&mut m, "post_date", opt_text(&record.post_date));
    push_member(&mut m, "brand_normalized", opt_text(&record.brand_normalized));
    push_member(&mut m, "normalizer_id", opt_text(&record.normalizer_id));
    push_member(&mut m, "normalizer_version", opt_text(&record.normalizer_version));
    push_member(&mut m, "extra", extra);
    let j = object_of(m);
    assert(j@->Object_0 =~~= spec_fingerprint_input(
        *record,
        match release_date {
            Some(d) => Some(d@),
            None => None,
        },
        extra@,
        metas,
    )->Object_0);
    j
}

/// The release date an upsert stores: the record's, or else the one stored.
pub fn effective_release_date(record: Option<&str>, stored: Option<&str>) -> (r: Option<String>)
    ensures
        match record {
            Some(d) => r matches Some(s) && s@ == d@,
            None => match stored {
                Some(d) => r matches Some(s) && s@ == d@,
                None => r is None,
            },
        },
{
    match record {
        Some(d) => Some(to_owned(d)),
        None => match stored {
            Some(d) => Some(to_owned(d)),
            None => None,
        },
    }
}

/// An upsert moves `updated_at` only when the fingerprint changed.
pub fn content_changed(stored: Option<&str>, fingerprint: &str) -> (r: bool)
    ensures
        r == !(stored matches Some(s) && s@ == fingerprint@),
{
    match stored {
        Some(s) => !str_eq(s, fingerprint),
        None => true,
    }
}

pub open spec fn joined_columns(cols: Seq<Seq<char>>) -> Seq<char>
    decreases cols.len(),
{
    if cols.len() == 0 {
        Seq::empty()
    } else if cols.len() == 1 {
        cols[0]
    } else {
        joined_columns(cols.drop_last()) + ", "@ + cols.last()
    }
}

impl DbError {
    /// The message of an error, as the command line prints it.
    pub fn describe(&self) -> (s: String)
        ensures
            self matches DbError::DatabaseTooNew(v) ==> s@ == "database schema version "@
                + crate::session::signed_chars(*v) + " is newer than supported version 1"@,
            self matches DbError::IncompatibleSchema { table, missing_columns } ==> s@
                == "incompatible core schema in "@ + table@ + "; missing columns: "@
                + joined_columns(string_views(missing_columns@)),
            self matches DbError::MissingTable(t) ==> s@ == "incompatible core schema; missing table: "@
                + t@,
            self matches DbError::NeedsMigration(p) ==> s@
                == "database is not initialized; run init-db first: "@ + p@,
            self matches DbError::Sqlite(m) ==> s@ == "sqlite error: "@ + m@,
            self matches DbError::Json(m) ==> s@ == "json error: "@ + m@,
            self matches DbError::MissingDatabase(p) ==> s@ == "database does not exist: "@ + p@,
            self matches DbError::UnsupportedSchemaVersion(v) ==> s@
                == "unsupported database schema version: "@ + crate::session::signed_chars(*v),
            self matches DbError::UnknownExistingDatabase(p) ==> s@
                == "refusing to initialize unknown existing database: "@ + p@,
            self matches DbError::Validation(e) ==> s@ == "validation error: "@
                + crate::domain::describe_fault(e@),
    {
        match self {
            DbError::DatabaseTooNew(v) => {
                let mut s = join2(
                    "database schema version ",
                    crate::session::signed_text(*v).as_str(),
                );
                s.append(" is newer than supported version 1");
                s
            },
            DbError::IncompatibleSchema { table, missing_columns } => {
                let mut s = join2("incompatible core schema in ", table.as_str());
                s.append("; missing columns: ");
                let j = join_columns(missing_columns);
                s.append(j.as_str());
                s
            },
            DbError::MissingTable(t) => join2("incompatible core schema; missing table: ", t.as_str()),
            DbError::NeedsMigration(p) => join2(
                "database is not initialized; run init-db first: ",
                p.as_str(),
            ),
            DbError::Sqlite(m) => join2("sqlite error: ", m.as_str()),
            DbError::Json(m) => join2("json error: ", m.as_str()),
            DbError::MissingDatabase(p) => join2("database does not exist: ", p.as_str()),
            DbError::UnsupportedSchemaVersion(v) => join2(
                "unsupported database schema version: ",
                crate::session::signed_text(*v).as_str(),
            ),
            DbError::UnknownExistingDatabase(p) => join2(
                "refusing to initialize unknown existing database: ",
                p.as_str(),
            ),
            DbError::Validation(e) => join2("validation error: ", e.describe().as_str()),
        }
    }
}

fn join_columns(cols: &Vec<String>) -> (s: String)
    ensures
        s@ == joined_columns(string_views(cols@)),
{
    let mut s = String::from_str("");
    proof {
        reveal_strlit("");
    }
    let mut i: usize = 0;
    while i < cols.len()
        invariant
            i <= cols@.len(),
            s@ == joined_columns(string_views(cols@).take(i as int)),
        decreases cols@.len() - i,
    {
        proof {
            assert(string_views(cols@).take(i + 1).drop_last() =~= string_views(cols@).take(
                i as int,
            ));
            assert(string_views(cols@).take(i + 1).last() == cols@[i as int]@);
        }
        if i > 0 {
            s.append(", ");
        } else {
            proof {
                assert(s@ =~= Seq::<char>::empty());
            }
        }
        s.append(cols[i].as_str());
        proof {
            if i == 0 {
                assert(string_views(cols@).take(1)[0] == cols@[0]@);
                assert(s@ =~= cols@[0]@);
            }
        }
        i += 1;
    }
    assert(string_views(cols@).take(cols@.len() as int) =~= string_views(cols@));
    s
}


proof fn lemma_opt_text_injective(a: Option<Seq<char>>, b: Option<Seq<char>>)
    ensures
        opt_text_view(a) == opt_text_view(b) ==> a == b,
{
}

proof fn lemma_texts_injective(a: Seq<String>, b: Seq<String>)
    ensures
        texts_view(a) == texts_view(b) ==> a.len() == b.len() && forall|i: int|
            0 <= i < a.len() ==> (#[trigger] a[i])@ == b[i]@,
{
    if texts_view(a) == texts_view(b) {
        let x = texts_view(a)->Array_0;
        let y = texts_view(b)->Array_0;
        assert(x.len() == a.len() && y.len() == b.len());
        assert forall|i: int| 0 <= i < a.len() implies (#[trigger] a[i])@ == b[i]@ by {
            assert(x[i] == JsonView::String(a[i]@));
            assert(y[i] == JsonView::String(b[i]@));
        }
    }
}

/// The same content: every field that the fingerprint covers, compared by
/// value, with the stored release date, `extra`, and each link's metadata.
pub open spec fn same_content(
    r1: SourceRecord,
    d1: Option<Seq<char>>,
    e1: JsonView,
    m1: Seq<JsonView>,
    r2: SourceRecord,
    d2: Option<Seq<char>>,
    e2: JsonView,
    m2: Seq<JsonView>,
) -> bool {
    &&& r1.source_name@ == r2.source_name@
    &&& r1.source_url@ == r2.source_url@
    &&& r1.title@ == r2.title@
    &&& r1.brand_raw@ == r2.brand_raw@
    &&& r1.performers_raw@.len() == r2.performers_raw@.len()
    &&& forall|i: int| 0 <= i < r1.performers_raw@.len() ==> (#[trigger] r1.performers_raw@[i])@ == r2.performers_raw@[i]@
    &&& r1.cover_urls@.len() == r2.cover_urls@.len()
    &&& forall|i: int| 0 <= i < r1.cover_urls@.len() ==> (#[trigger] r1.cover_urls@[i])@ == r2.cover_urls@[i]@
    &&& r1.page_urls@.len() == r2.page_urls@.len()
    &&& forall|i: int| 0 <= i < r1.page_urls@.len() ==> (#[trigger] r1.page_urls@[i])@ == r2.page_urls@[i]@
    &&& r1.external_links@.len() == r2.external_links@.len()
    &&& forall|i: int| 0 <= i < r1.external_links@.len() ==> {
        let a = #[trigger] r1.external_links@[i];
        let b = r2.external_links@[i];
        &&& a.url@ == b.url@
        &&& opt_view(a.provider) == opt_view(b.provider)
        &&& opt_view(a.label) == opt_view(b.label)
        &&& opt_view(a.kind) == opt_view(b.kind)
        &&& opt_view(a.external_id) == opt_view(b.external_id)
        &&& m1[i] == m2[i]
    }
    &&& opt_view(r1.issue_no) == opt_view(r2.issue_no)
    &&& d1 == d2
    &&& opt_view(r1.post_date) == opt_view(r2.post_date)
    &&& opt_view(r1.brand_normalized) == opt_view(r2.brand_normalized)
    &&& opt_view(r1.normalizer_id) == opt_view(r2.normalizer_id)
    &&& opt_view(r1.normalizer_version) == opt_view(r2.normalizer_version)
    &&& e1 == e2
}

/// The fingerprint input determines the content: two records (with their
/// stored release dates, `extra` and link metadata) give the same input only
/// when every covered field is the same. So a change of any of the fifteen
/// members changes what is hashed.
pub proof fn lemma_fingerprint_input_determines_content(
    r1: SourceRecord,
    d1: Option<Seq<char>>,
    e1: JsonView,
    m1: Seq<JsonView>,
    r2: SourceRecord,
    d2: Option<Seq<char>>,
    e2: JsonView,
    m2: Seq<JsonView>,
)
    requires
        m1.len() == r1.external_links@.len(),
        m2.len() == r2.external_links@.len(),
        spec_fingerprint_input(r1, d1, e1, m1) == spec_fingerprint_input(r2, d2, e2, m2),
    ensures
        same_content(r1, d1, e1, m1, r2, d2, e2, m2),
{
    let x = spec_fingerprint_input(r1, d1, e1, m1)->Object_0;
    let y = spec_fingerprint_input(r2, d2, e2, m2)->Object_0;
    assert(x == y);
    assert(x.len() == 15);
    assert(x[0] == y[0] && x[1] == y[1] && x[2] == y[2] && x[3] == y[3]);
    assert(x[4] == y[4] && x[5] == y[5] && x[6] == y[6] && x[7] == y[7]);
    assert(x[8] == y[8] && x[9] == y[9] && x[10] == y[10] && x[11] == y[11]);
    assert(x[12] == y[12] && x[13] == y[13] && x[14] == y[14]);
    lemma_texts_injective(r1.performers_raw@, r2.performers_raw@);
    lemma_texts_injective(r1.cover_urls@, r2.cover_urls@);
    lemma_texts_injective(r1.page_urls@, r2.page_urls@);
    lemma_opt_text_injective(opt_view(r1.issue_no), opt_view(r2.issue_no));
    lemma_opt_text_injective(d1, d2);
    lemma_opt_text_injective(opt_view(r1.post_date), opt_view(r2.post_date));
    lemma_opt_text_injective(opt_view(r1.brand_normalized), opt_view(r2.brand_normalized));
    lemma_opt_text_injective(opt_view(r1.normalizer_id), opt_view(r2.normalizer_id));
    lemma_opt_text_injective(opt_view(r1.normalizer_version), opt_view(r2.normalizer_version));
    let l1 = x[7].1->Array_0;
    let l2 = y[7].1->Array_0;
    assert(l1.len() == r1.external_links@.len());
    assert(l2.len() == r2.external_links@.len());
    assert forall|i: int| 0 <= i < r1.external_links@.len() implies {
        let a = #[trigger] r1.external_links@[i];
        let b = r2.external_links@[i];
        &&& a.url@ == b.url@
        &&& opt_view(a.provider) == opt_view(b.provider)
        &&& opt_view(a.label) == opt_view(b.label)
        &&& opt_view(a.kind) == opt_view(b.kind)
        &&& opt_view(a.external_id) == opt_view(b.external_id)
        &&& m1[i] == m2[i]
    } by {
        let a = r1.external_links@[i];
        let b = r2.external_links@[i];
        assert(l1[i] == link_input_view(a, m1[i]));
        assert(l2[i] == link_input_view(b, m2[i]));
        let u = link_input_view(a, m1[i])->Object_0;
        let v = link_input_view(b, m2[i])->Object_0;
        assert(u[0] == v[0] && u[1] == v[1] && u[2] == v[2]);
        assert(u[3] == v[3] && u[4] == v[4] && u[5] == v[5]);
        lemma_opt_text_injective(opt_view(a.provider), opt_view(b.provider));
        lemma_opt_text_injective(opt_view(a.label), opt_view(b.label));
        lemma_opt_text_injective(opt_view(a.kind), opt_view(b.kind));
        lemma_opt_text_injective(opt_view(a.external_id), opt_view(b.external_id));
    }
}

} // verus!
