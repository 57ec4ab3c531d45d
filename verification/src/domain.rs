//! Domain data structures shared by the host, the database ingestor and plugins.
//!
//! [`SourceRecord`] is the `record_schema_version = 1` record shape. Its
//! generic host-side invariants are [`spec_validate`].

use vstd::prelude::*;

use vstd::string::StringExecFns;
use crate::text::{decimal_chars, 
    all_digits, blank, chars_of, contains_char, digit_value, find_char, is_ascii_alnum,
    is_ascii_alpha, is_ascii_digit, is_blank, is_ws, is_ws_char, str_eq, to_owned,
};

verus! {

#[verifier::external_type_specification]
#[verifier::external_body]
#[verifier::reject_recursive_types(K)]
#[verifier::reject_recursive_types(V)]
pub struct ExJsonMap<K, V>(serde_json::Map<K, V>);

#[verifier::external_type_specification]
#[verifier::external_body]
pub struct ExJsonValue(serde_json::Value);

/// A publication metadata record emitted by a source plugin.
#[derive(Debug, PartialEq)]
pub struct SourceRecord {
    pub source_name: String,
    pub source_url: String,
    pub title: String,
    pub brand_raw: String,
    pub performers_raw: Vec<String>,
    pub cover_urls: Vec<String>,
    pub page_urls: Vec<String>,
    pub external_links: Vec<ExternalLink>,
    pub issue_no: Option<String>,
    pub release_date: Option<String>,
    pub post_date: Option<String>,
    pub brand_normalized: Option<String>,
    pub normalizer_id: Option<String>,
    pub normalizer_version: Option<String>,
    pub extra: serde_json::Map<String, serde_json::Value>,
}

/// A typed external link attached to a source post.
#[derive(Debug, PartialEq)]
pub struct ExternalLink {
    pub url: String,
    pub provider: Option<String>,
    pub label: Option<String>,
    pub kind: Option<String>,
    pub external_id: Option<String>,
    pub metadata: serde_json::Map<String, serde_json::Value>,
}

/// Validation errors for generic `SourceRecord` contract checks.
#[derive(Debug, PartialEq, Eq)]
pub enum ValidationError {
    MissingField { field: &'static str },
    InvalidUri { field: &'static str, value: String },
    EmptyListItem { field: &'static str, index: usize },
    InvalidDate { field: &'static str, value: String },
    EmptyOptionalField { field: &'static str, index: usize },
    SourceNameMismatch { expected: String, actual: String },
}

/// The mathematical content of a [`ValidationError`].
pub enum Fault {
    MissingField { field: Seq<char> },
    InvalidUri { field: Seq<char>, value: Seq<char> },
    EmptyListItem { field: Seq<char>, index: int },
    InvalidDate { field: Seq<char>, value: Seq<char> },
    EmptyOptionalField { field: Seq<char>, index: int },
    SourceNameMismatch { expected: Seq<char>, actual: Seq<char> },
}

impl View for ValidationError {
    type V = Fault;

    open spec fn view(&self) -> Fault {
        match self {
            ValidationError::MissingField { field } => Fault::MissingField { field: field@ },
            ValidationError::InvalidUri { field, value } => Fault::InvalidUri {
                field: field@,
                value: value@,
            },
            ValidationError::EmptyListItem { field, index } => Fault::EmptyListItem {
                field: field@,
                index: *index as int,
            },
            ValidationError::InvalidDate { field, value } => Fault::InvalidDate {
                field: field@,
                value: value@,
            },
            ValidationError::EmptyOptionalField { field, index } => Fault::EmptyOptionalField {
                field: field@,
                index: *index as int,
            },
            ValidationError::SourceNameMismatch { expected, actual } => Fault::SourceNameMismatch {
                expected: expected@,
                actual: actual@,
            },
        }
    }
}

pub open spec fn is_scheme_char(c: char) -> bool {
    is_ascii_alnum(c) || c == '+' || c == '-' || c == '.'
}

/// Index of the first `c` in `s`, when `s` holds one.
pub open spec fn first_index(s: Seq<char>, c: char) -> int
    recommends
        contains_char(s, c),
{
    choose|k: int| 0 <= k < s.len() && s[k] == c && forall|j: int| 0 <= j < k ==> s[j] != c
}

/// An absolute URI: a scheme (a letter, then letters, digits, `+`, `-`, `.`),
/// a colon, a non-empty remainder, and no whitespace anywhere.
pub open spec fn spec_is_absolute_uri(s: Seq<char>) -> bool {
    contains_char(s, ':') && {
        let k = first_index(s, ':');
        &&& k > 0
        &&& is_ascii_alpha(s[0])
        &&& forall|j: int| 1 <= j < k ==> is_scheme_char(#[trigger] s[j])
        &&& k + 1 < s.len()
        &&& forall|i: int| 0 <= i < s.len() ==> !is_ws(#[trigger] s[i])
    }
}

pub open spec fn spec_is_leap_year(year: int) -> bool {
    (year % 4 == 0 && year % 100 != 0) || year % 400 == 0
}

pub open spec fn spec_days_in_month(year: int, month: int) -> int {
    if month == 1 || month == 3 || month == 5 || month == 7 || month == 8 || month == 10 || month
        == 12 {
        31
    } else if month == 4 || month == 6 || month == 9 || month == 11 {
        30
    } else if month == 2 && spec_is_leap_year(year) {
        29
    } else if month == 2 {
        28
    } else {
        0
    }
}

pub open spec fn two_digits(s: Seq<char>, at: int) -> int {
    (10 * digit_value(s[at]) + digit_value(s[at + 1])) as int
}

/// A calendar date written `YYYY-MM-DD`.
pub open spec fn spec_is_valid_date(s: Seq<char>) -> bool {
    &&& s.len() == 10
    &&& s[4] == '-'
    &&& s[7] == '-'
    &&& forall|i: int| 0 <= i < 10 && i != 4 && i != 7 ==> is_ascii_digit(#[trigger] s[i])
    &&& {
        let year = 100 * two_digits(s, 0) + two_digits(s, 2);
        let month = two_digits(s, 5);
        let day = two_digits(s, 8);
        1 <= month <= 12 && 1 <= day <= spec_days_in_month(year, month)
    }
}

/// The first failing item of a string list, from index `i` on.
pub open spec fn list_fault(field: Seq<char>, values: Seq<Seq<char>>, require_uri: bool, i: int) -> Option<Fault>
    decreases values.len() - i,
{
    if i < 0 || i >= values.len() {
        None
    } else if blank(values[i]) {
        Some(Fault::EmptyListItem { field, index: i })
    } else if require_uri && !spec_is_absolute_uri(values[i]) {
        Some(Fault::InvalidUri { field, value: values[i] })
    } else {
        list_fault(field, values, require_uri, i + 1)
    }
}

pub open spec fn optional_fault(field: Seq<char>, index: int, value: Option<String>) -> Option<Fault> {
    match value {
        Some(v) => if blank(v@) {
            Some(Fault::EmptyOptionalField { field, index })
        } else {
            None
        },
        None => None,
    }
}

pub open spec fn link_fault(link: ExternalLink, index: int) -> Option<Fault> {
    if !spec_is_absolute_uri(link.url@) {
        Some(Fault::InvalidUri { field: "external_links.url"@, value: link.url@ })
    } else if optional_fault("external_links.provider"@, index, link.provider) is Some {
        optional_fault("external_links.provider"@, index, link.provider)
    } else if optional_fault("external_links.label"@, index, link.label) is Some {
        optional_fault("external_links.label"@, index, link.label)
    } else if optional_fault("external_links.kind"@, index, link.kind) is Some {
        optional_fault("external_links.kind"@, index, link.kind)
    } else {
        optional_fault("external_links.external_id"@, index, link.external_id)
    }
}

pub open spec fn links_fault(links: Seq<ExternalLink>, i: int) -> Option<Fault>
    decreases links.len() - i,
{
    if i < 0 || i >= links.len() {
        None
    } else if link_fault(links[i], i) is Some {
        link_fault(links[i], i)
    } else {
        links_fault(links, i + 1)
    }
}

pub open spec fn date_fault(field: Seq<char>, value: Option<String>) -> Option<Fault> {
    match value {
        Some(v) => if spec_is_valid_date(v@) {
            None
        } else {
            Some(Fault::InvalidDate { field, value: v@ })
        },
        None => None,
    }
}

pub open spec fn string_views(v: Seq<String>) -> Seq<Seq<char>> {
    v.map_values(|s: String| s@)
}

/// The generic host-side invariants of the v1 record contract, checked in
/// order; the first one that fails is the error.
#[verifier::opaque]
pub open spec fn record_fault(r: SourceRecord) -> Option<Fault> {
    if blank(r.source_name@) {
        Some(Fault::MissingField { field: "source_name"@ })
    } else if blank(r.source_url@) {
        Some(Fault::MissingField { field: "source_url"@ })
    } else if blank(r.title@) {
        Some(Fault::MissingField { field: "title"@ })
    } else if !spec_is_absolute_uri(r.source_url@) {
        Some(Fault::InvalidUri { field: "source_url"@, value: r.source_url@ })
    } else if list_fault("performers_raw"@, string_views(r.performers_raw@), false, 0) is Some {
        list_fault("performers_raw"@, string_views(r.performers_raw@), false, 0)
    } else if list_fault("cover_urls"@, string_views(r.cover_urls@), true, 0) is Some {
        list_fault("cover_urls"@, string_views(r.cover_urls@), true, 0)
    } else if list_fault("page_urls"@, string_views(r.page_urls@), true, 0) is Some {
        list_fault("page_urls"@, string_views(r.page_urls@), true, 0)
    } else if links_fault(r.external_links@, 0) is Some {
        links_fault(r.external_links@, 0)
    } else if date_fault("release_date"@, r.release_date) is Some {
        date_fault("release_date"@, r.release_date)
    } else {
        date_fault("post_date"@, r.post_date)
    }
}

pub open spec fn fault_result(f: Option<Fault>, res: Result<(), ValidationError>) -> bool {
    match f {
        None => res is Ok,
        Some(fault) => res matches Err(e) && e@ == fault,
    }
}

impl SourceRecord {
    /// Validate generic host-side invariants from the v1 contract.
    pub fn validate(&self) -> (res: Result<(), ValidationError>)
        ensures
            fault_result(record_fault(*self), res),
    {
        reveal(record_fault);
        validate_required("source_name", &self.source_name)?;
        validate_required("source_url", &self.source_url)?;
        validate_required("title", &self.title)?;
        validate_absolute_uri("source_url", &self.source_url)?;
        validate_list("performers_raw", &self.performers_raw, false)?;
        validate_list("cover_urls", &self.cover_urls, true)?;
        validate_list("page_urls", &self.page_urls, true)?;
        validate_links(&self.external_links)?;
        validate_date("release_date", &self.release_date)?;
        validate_date("post_date", &self.post_date)?;
        Ok(())
    }

    /// Validate this record against the source declared by a plugin manifest.
    pub fn validate_for_source(&self, source_name: &str) -> (res: Result<(), ValidationError>)
        ensures
            record_fault(*self) is Some ==> fault_result(record_fault(*self), res),
            record_fault(*self) is None ==> (if self.source_name@ == source_name@ {
                res is Ok
            } else {
                (res matches Err(e) && e@ == (Fault::SourceNameMismatch {
                    expected: source_name@,
                    actual: self.source_name@,
                }))
            }),
    {
        self.validate()?;
        if !str_eq(self.source_name.as_str(), source_name) {
            return Err(
                ValidationError::SourceNameMismatch {
                    expected: to_owned(source_name),
                    actual: self.source_name.clone(),
                },
            );
        }
        Ok(())
    }
}

impl ExternalLink {
    pub fn validate(&self, index: usize) -> (res: Result<(), ValidationError>)
        ensures
            fault_result(link_fault(*self, index as int), res),
    {
        validate_absolute_uri("external_links.url", &self.url)?;
        validate_optional_string("external_links.provider", index, &self.provider)?;
        validate_optional_string("external_links.label", index, &self.label)?;
        validate_optional_string("external_links.kind", index, &self.kind)?;
        validate_optional_string("external_links.external_id", index, &self.external_id)?;
        Ok(())
    }
}

fn validate_required(field: &'static str, value: &String) -> (res: Result<(), ValidationError>)
    ensures
        blank(value@) ==> (res matches Err(e) && e@ == (Fault::MissingField { field: field@ })),
        !blank(value@) ==> res is Ok,
{
    if is_blank(value.as_str()) {
        Err(ValidationError::MissingField { field })
    } else {
        Ok(())
    }
}

fn validate_absolute_uri(field: &'static str, value: &String) -> (res: Result<
    (),
    ValidationError,
>)
    ensures
        !spec_is_absolute_uri(value@) ==> (res matches Err(e) && e@ == (Fault::InvalidUri {
            field: field@,
            value: value@,
        })),
        spec_is_absolute_uri(value@) ==> res is Ok,
{
    if is_absolute_uri(value.as_str()) {
        Ok(())
    } else {
        Err(ValidationError::InvalidUri { field, value: value.clone() })
    }
}

fn validate_list(field: &'static str, values: &Vec<String>, require_uri: bool) -> (res: Result<
    (),
    ValidationError,
>)
    ensures
        fault_result(list_fault(field@, string_views(values@), require_uri, 0), res),
{
    let ghost views = string_views(values@);
    let mut i: usize = 0;
    while i < values.len()
        invariant
            views == string_views(values@),
            i <= values@.len(),
            list_fault(field@, views, require_uri, 0) == list_fault(
                field@,
                views,
                require_uri,
                i as int,
            ),
        decreases values@.len() - i,
    {
        let value = &values[i];
        assert(views[i as int] == value@);
        if is_blank(value.as_str()) {
            return Err(ValidationError::EmptyListItem { field, index: i });
        }
        if require_uri && !is_absolute_uri(value.as_str()) {
            return Err(ValidationError::InvalidUri { field, value: value.clone() });
        }
        i += 1;
    }
    Ok(())
}

fn validate_links(links: &Vec<ExternalLink>) -> (res: Result<(), ValidationError>)
    ensures
        fault_result(links_fault(links@, 0), res),
{
    let mut i: usize = 0;
    while i < links.len()
        invariant
            i <= links@.len(),
            links_fault(links@, 0) == links_fault(links@, i as int),
        decreases links@.len() - i,
    {
        links[i].validate(i)?;
        i += 1;
    }
    Ok(())
}

fn validate_optional_string(field: &'static str, index: usize, value: &Option<String>) -> (res:
    Result<(), ValidationError>)
    ensures
        fault_result(optional_fault(field@, index as int, *value), res),
{
    match value {
        Some(v) => {
            if is_blank(v.as_str()) {
                Err(ValidationError::EmptyOptionalField { field, index })
            } else {
                Ok(())
            }
        },
        None => Ok(()),
    }
}

fn validate_date(field: &'static str, value: &Option<String>) -> (res: Result<(), ValidationError>)
    ensures
        fault_result(date_fault(field@, *value), res),
{
    match value {
        Some(v) => {
            if is_valid_yyyy_mm_dd(v.as_str()) {
                Ok(())
            } else {
                Err(ValidationError::InvalidDate { field, value: v.clone() })
            }
        },
        None => Ok(()),
    }
}

fn is_scheme_char_exec(c: char) -> (r: bool)
    ensures
        r == is_scheme_char(c),
{
    ('a' <= c && c <= 'z') || ('A' <= c && c <= 'Z') || ('0' <= c && c <= '9') || c == '+' || c
        == '-' || c == '.'
}

proof fn lemma_first_index(s: Seq<char>, c: char, k: int)
    requires
        0 <= k < s.len(),
        s[k] == c,
        forall|j: int| 0 <= j < k ==> s[j] != c,
    ensures
        contains_char(s, c),
        first_index(s, c) == k,
{
    assert(contains_char(s, c));
    let f = first_index(s, c);
    assert(0 <= f < s.len() && s[f] == c && forall|j: int| 0 <= j < f ==> s[j] != c);
    if f < k {
        assert(s[f] != c);
    }
    if f > k {
        assert(s[k] != c);
    }
}

/// Whether `value` is an absolute URI.
pub fn is_absolute_uri(value: &str) -> (r: bool)
    ensures
        r == spec_is_absolute_uri(value@),
{
    let v = chars_of(value);
    let colon = match find_char(v.as_slice(), 0, ':') {
        Some(k) => k,
        None => {
            return false;
        },
    };
    proof {
        lemma_first_index(v@, ':', colon as int);
    }
    if colon == 0 {
        return false;
    }
    let first = v[0];
    if !(('a' <= first && first <= 'z') || ('A' <= first && first <= 'Z')) {
        return false;
    }
    let mut j: usize = 1;
    while j < colon
        invariant
            1 <= j <= colon < v@.len(),
            v@ == value@,
            contains_char(v@, ':'),
            colon == first_index(v@, ':'),
            forall|i: int| 1 <= i < j ==> is_scheme_char(#[trigger] v@[i]),
        decreases colon - j,
    {
        if !is_scheme_char_exec(v[j]) {
            proof {
                assert(!is_scheme_char(v@[j as int]));
            }
            return false;
        }
        j += 1;
    }
    if colon + 1 >= v.len() {
        return false;
    }
    let mut i: usize = 0;
    while i < v.len()
        invariant
            i <= v@.len(),
            v@ == value@,
            forall|k: int| 0 <= k < i ==> !is_ws(#[trigger] v@[k]),
        decreases v@.len() - i,
    {
        if is_ws_char(v[i]) {
            proof {
                assert(is_ws(v@[i as int]));
            }
            return false;
        }
        i += 1;
    }
    true
}

pub fn is_leap_year(year: u16) -> (r: bool)
    ensures
        r == spec_is_leap_year(year as int),
{
    (year % 4 == 0 && year % 100 != 0) || year % 400 == 0
}

pub fn days_in_month(year: u16, month: u8) -> (r: u8)
    ensures
        r as int == spec_days_in_month(year as int, month as int),
{
    if month == 1 || month == 3 || month == 5 || month == 7 || month == 8 || month == 10 || month
        == 12 {
        31
    } else if month == 4 || month == 6 || month == 9 || month == 11 {
        30
    } else if month == 2 && is_leap_year(year) {
        29
    } else if month == 2 {
        28
    } else {
        0
    }
}

fn digit(c: char) -> (d: u16)
    requires
        is_ascii_digit(c),
    ensures
        d as nat == digit_value(c),
        d <= 9,
{
    (c as u32 - '0' as u32) as u16
}

/// Whether `value` is a calendar date written `YYYY-MM-DD`.
pub fn is_valid_yyyy_mm_dd(value: &str) -> (r: bool)
    ensures
        r == spec_is_valid_date(value@),
{
    let v = chars_of(value);
    if v.len() != 10 {
        return false;
    }
    if v[4] != '-' || v[7] != '-' {
        return false;
    }
    let mut i: usize = 0;
    while i < 10
        invariant
            v@.len() == 10,
            v@ == value@,
            i <= 10,
            forall|k: int| 0 <= k < i && k != 4 && k != 7 ==> is_ascii_digit(#[trigger] v@[k]),
        decreases 10 - i,
    {
        if i != 4 && i != 7 && !('0' <= v[i] && v[i] <= '9') {
            proof {
                assert(!is_ascii_digit(v@[i as int]));
            }
            return false;
        }
        i += 1;
    }
    assert(is_ascii_digit(v@[0]) && is_ascii_digit(v@[1]) && is_ascii_digit(v@[2])
        && is_ascii_digit(v@[3]) && is_ascii_digit(v@[5]) && is_ascii_digit(v@[6])
        && is_ascii_digit(v@[8]) && is_ascii_digit(v@[9]));
    let year: u16 = 1000 * digit(v[0]) + 100 * digit(v[1]) + 10 * digit(v[2]) + digit(v[3]);
    let month: u16 = 10 * digit(v[5]) + digit(v[6]);
    let day: u16 = 10 * digit(v[8]) + digit(v[9]);
    if month < 1 || month > 12 {
        return false;
    }
    let dim = days_in_month(year, month as u8);
    day >= 1 && day <= dim as u16
}

/// The message of a validation error.
pub open spec fn describe_fault(f: Fault) -> Seq<char> {
    match f {
        Fault::MissingField { field } => "missing required field: "@ + field,
        Fault::InvalidUri { field, value } => "invalid absolute URI in "@ + field + ": "@ + value,
        Fault::EmptyListItem { field, index } => "empty item in "@ + field + "["@ + decimal_chars(
            index as nat,
        ) + "]"@,
        Fault::InvalidDate { field, value } => "invalid YYYY-MM-DD date in "@ + field + ": "@
            + value,
        Fault::EmptyOptionalField { field, index } => "empty optional field in "@ + field + "["@
            + decimal_chars(index as nat) + "]"@,
        Fault::SourceNameMismatch { expected, actual } => "source_name mismatch: expected "@
            + expected + ", got "@ + actual,
    }
}

impl ValidationError {
    /// The message of the error, as it is displayed.
    pub fn describe(&self) -> (s: String)
        ensures
            s@ == describe_fault(self@),
    {
        match self {
            ValidationError::MissingField { field } => crate::text::join2(
                "missing required field: ",
                field,
            ),
            ValidationError::InvalidUri { field, value } => crate::text::join4(
                "invalid absolute URI in ",
                field,
                ": ",
                value.as_str(),
            ),
            ValidationError::EmptyListItem { field, index } => {
                let mut s = crate::text::join3("empty item in ", field, "[");
                s.append(crate::text::decimal_string(*index as u64).as_str());
                s.append("]");
                s
            },
            ValidationError::InvalidDate { field, value } => crate::text::join4(
                "invalid YYYY-MM-DD date in ",
                field,
                ": ",
                value.as_str(),
            ),
            ValidationError::EmptyOptionalField { field, index } => {
                let mut s = crate::text::join3("empty optional field in ", field, "[");
                s.append(crate::text::decimal_string(*index as u64).as_str());
                s.append("]");
                s
            },
            ValidationError::SourceNameMismatch { expected, actual } => crate::text::join4(
                "source_name mismatch: expected ",
                expected.as_str(),
                ", got ",
                actual.as_str(),
            ),
        }
    }
}


proof fn lemma_list_fault_none(field: Seq<char>, values: Seq<Seq<char>>, require_uri: bool, i: int)
    requires
        0 <= i <= values.len(),
    ensures
        list_fault(field, values, require_uri, i) is None <==> forall|j: int|
            i <= j < values.len() ==> !blank(#[trigger] values[j]) && (require_uri
                ==> spec_is_absolute_uri(values[j])),
    decreases values.len() - i,
{
    if i < values.len() {
        lemma_list_fault_none(field, values, require_uri, i + 1);
    }
}

/// A link as the contract wants it: an absolute URL, and each optional text
/// non-blank when present.
pub open spec fn link_ok(link: ExternalLink) -> bool {
    &&& spec_is_absolute_uri(link.url@)
    &&& link.provider matches Some(v) ==> !blank(v@)
    &&& link.label matches Some(v) ==> !blank(v@)
    &&& link.kind matches Some(v) ==> !blank(v@)
    &&& link.external_id matches Some(v) ==> !blank(v@)
}

proof fn lemma_links_fault_none(links: Seq<ExternalLink>, i: int)
    requires
        0 <= i <= links.len(),
    ensures
        links_fault(links, i) is None <==> forall|j: int| i <= j < links.len() ==> link_ok(#[trigger] links[j]),
    decreases links.len() - i,
{
    if i < links.len() {
        lemma_links_fault_none(links, i + 1);
        assert(link_fault(links[i], i) is None <==> link_ok(links[i]));
    }
}

/// A record passes validation exactly when source name, source URL and
/// title are not blank and the source URL is absolute; no performer is
/// blank; every cover and page URL is a non-blank absolute URI; every link
/// is well formed; and each date present is a real `YYYY-MM-DD` date.
pub proof fn lemma_valid_record(r: SourceRecord)
    ensures
        record_fault(r) is None <==> {
            &&& !blank(r.source_name@)
            &&& !blank(r.source_url@)
            &&& !blank(r.title@)
            &&& spec_is_absolute_uri(r.source_url@)
            &&& forall|i: int| 0 <= i < r.performers_raw@.len() ==> !blank(#[trigger] r.performers_raw@[i]@)
            &&& forall|i: int|
                0 <= i < r.cover_urls@.len() ==> !blank(#[trigger] r.cover_urls@[i]@)
                    && spec_is_absolute_uri(r.cover_urls@[i]@)
            &&& forall|i: int|
                0 <= i < r.page_urls@.len() ==> !blank(#[trigger] r.page_urls@[i]@)
                    && spec_is_absolute_uri(r.page_urls@[i]@)
            &&& forall|i: int| 0 <= i < r.external_links@.len() ==> link_ok(#[trigger] r.external_links@[i])
            &&& r.release_date matches Some(d) ==> spec_is_valid_date(d@)
            &&& r.post_date matches Some(d) ==> spec_is_valid_date(d@)
        },
{
    reveal(record_fault);
    let p = string_views(r.performers_raw@);
    let c = string_views(r.cover_urls@);
    let g = string_views(r.page_urls@);
    lemma_list_fault_none("performers_raw"@, p, false, 0);
    lemma_list_fault_none("cover_urls"@, c, true, 0);
    lemma_list_fault_none("page_urls"@, g, true, 0);
    lemma_links_fault_none(r.external_links@, 0);
    assert forall|i: int| 0 <= i < r.performers_raw@.len() implies p[i] == #[trigger] r.performers_raw@[i]@ by {}
    assert forall|i: int| 0 <= i < r.cover_urls@.len() implies c[i] == #[trigger] r.cover_urls@[i]@ by {}
    assert forall|i: int| 0 <= i < r.page_urls@.len() implies g[i] == #[trigger] r.page_urls@[i]@ by {}
}

} // verus!
