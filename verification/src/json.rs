//! A plain model of JSON values, read by the protocol and request parsers.
//!
//! Numbers are kept in the three forms a JSON reader distinguishes: a
//! non-negative integer, a negative integer, or anything else (by its text).
//! Object members keep their order; a key occurs at most once.

use vstd::prelude::*;

use vstd::string::StringExecFns;

use crate::text::{chars_of, lemma_insert_non_descending, non_descending, str_eq, text_less, text_lt};

verus! {

#[derive(Debug)]
pub enum Json {
    Null,
    Bool(bool),
    /// A non-negative integer that fits in `u64`.
    PosInt(u64),
    /// A negative integer that fits in `i64`.
    NegInt(i64),
    /// Any other number, by its text.
    Float(String),
    String(String),
    Array(Vec<Json>),
    Object(Vec<(String, Json)>),
}

/// The members of an object value; empty for any other value.
pub open spec fn members(v: Json) -> Seq<(String, Json)> {
    match v {
        Json::Object(m) => m@,
        _ => Seq::empty(),
    }
}

pub open spec fn is_object(v: Json) -> bool {
    v is Object
}

/// Index of the member named `key`, from `i` on.
pub open spec fn member_index_from(m: Seq<(String, Json)>, key: Seq<char>, i: int) -> Option<int>
    decreases m.len() - i,
{
    if i < 0 || i >= m.len() {
        None
    } else if m[i].0@ == key {
        Some(i)
    } else {
        member_index_from(m, key, i + 1)
    }
}

/// The value of the member named `key` (`value.get(key)`), for an object.
pub open spec fn spec_get(v: Json, key: Seq<char>) -> Option<Json> {
    match member_index_from(members(v), key, 0) {
        Some(i) => Some(members(v)[i].1),
        None => None,
    }
}

pub open spec fn has_key(v: Json, key: Seq<char>) -> bool {
    spec_get(v, key) is Some
}

/// The text of a string value (`value.as_str()`).
pub open spec fn spec_as_str(v: Option<Json>) -> Option<Seq<char>> {
    match v {
        Some(Json::String(s)) => Some(s@),
        _ => None,
    }
}

/// `value.as_u64()`.
pub open spec fn spec_as_u64(v: Option<Json>) -> Option<u64> {
    match v {
        Some(Json::PosInt(n)) => Some(n),
        _ => None,
    }
}

/// `value.as_i64()`.
pub open spec fn spec_as_i64(v: Option<Json>) -> Option<i64> {
    match v {
        Some(Json::PosInt(n)) => if n <= i64::MAX {
            Some(n as i64)
        } else {
            None
        },
        Some(Json::NegInt(n)) => Some(n),
        _ => None,
    }
}


/// A JSON value as plain values.
pub enum JsonView {
    Null,
    Bool(bool),
    PosInt(u64),
    NegInt(i64),
    Float(Seq<char>),
    String(Seq<char>),
    Array(Seq<JsonView>),
    Object(Seq<(Seq<char>, JsonView)>),
}

pub open spec fn json_view(v: Json) -> JsonView
    decreases v,
{
    match v {
        Json::Null => JsonView::Null,
        Json::Bool(b) => JsonView::Bool(b),
        Json::PosInt(n) => JsonView::PosInt(n),
        Json::NegInt(n) => JsonView::NegInt(n),
        Json::Float(t) => JsonView::Float(t@),
        Json::String(s) => JsonView::String(s@),
        Json::Array(items) => JsonView::Array(
            Seq::new(
                items@.len(),
                |i: int|
                    if 0 <= i < items@.len() {
                        json_view(items@[i])
                    } else {
                        JsonView::Null
                    },
            ),
        ),
        Json::Object(m) => JsonView::Object(
            Seq::new(
                m@.len(),
                |i: int|
                    if 0 <= i < m@.len() {
                        (m@[i].0@, json_view(m@[i].1))
                    } else {
                        (Seq::empty(), JsonView::Null)
                    },
            ),
        ),
    }
}

impl View for Json {
    type V = JsonView;

    open spec fn view(&self) -> JsonView {
        json_view(*self)
    }
}


/// The members of an object as plain values.
pub open spec fn member_views(m: Seq<(String, Json)>) -> Seq<(Seq<char>, JsonView)> {
    Seq::new(m.len(), |i: int| (m[i].0@, m[i].1@))
}

pub open spec fn member_keys(m: Seq<(Seq<char>, JsonView)>) -> Seq<Seq<char>> {
    m.map_values(|p: (Seq<char>, JsonView)| p.0)
}

/// Where a member keyed `key` goes among the sorted members `s`, looking
/// from `k` on: before the first key that it precedes, else at the end.
pub open spec fn slot_from(s: Seq<(Seq<char>, JsonView)>, key: Seq<char>, k: int) -> int
    decreases s.len() - k,
{
    if k < 0 || k >= s.len() {
        s.len() as int
    } else if text_lt(key, s[k].0) {
        k
    } else {
        slot_from(s, key, k + 1)
    }
}

/// The members sorted by key; members with equal keys keep their order.
pub open spec fn sort_members(m: Seq<(Seq<char>, JsonView)>) -> Seq<(Seq<char>, JsonView)>
    decreases m.len(),
{
    if m.len() == 0 {
        m
    } else {
        let s = sort_members(m.drop_last());
        s.insert(slot_from(s, m.last().0, 0), m.last())
    }
}

/// The value with the members of every object, at every depth, sorted by
/// key.
pub open spec fn sorted_json(v: JsonView) -> JsonView
    decreases v,
{
    match v {
        JsonView::Array(items) => JsonView::Array(
            Seq::new(
                items.len(),
                |i: int|
                    if 0 <= i < items.len() {
                        sorted_json(items[i])
                    } else {
                        JsonView::Null
                    },
            ),
        ),
        JsonView::Object(m) => JsonView::Object(sort_members(sorted_members(m))),
        _ => v,
    }
}

/// The members with each value sorted as [`sorted_json`] sorts it.
pub open spec fn sorted_members(m: Seq<(Seq<char>, JsonView)>) -> Seq<(Seq<char>, JsonView)>
    decreases m,
{
    Seq::new(
        m.len(),
        |i: int|
            if 0 <= i < m.len() {
                (m[i].0, sorted_json(m[i].1))
            } else {
                (Seq::empty(), JsonView::Null)
            },
    )
}

proof fn lemma_slot(s: Seq<(Seq<char>, JsonView)>, key: Seq<char>, k: int)
    requires
        0 <= k <= s.len(),
        forall|i: int| 0 <= i < k ==> !text_lt(key, #[trigger] s[i].0),
    ensures
        k <= slot_from(s, key, k) <= s.len(),
        forall|i: int| 0 <= i < slot_from(s, key, k) ==> !text_lt(key, #[trigger] s[i].0),
        slot_from(s, key, k) < s.len() ==> text_lt(key, s[slot_from(s, key, k)].0),
    decreases s.len() - k,
{
    if k < s.len() && !text_lt(key, s[k].0) {
        lemma_slot(s, key, k + 1);
    }
}

/// Sorting the members of an object puts their keys in order, and keeps
/// their number.
pub proof fn lemma_sort_members_ordered(m: Seq<(Seq<char>, JsonView)>)
    ensures
        non_descending(member_keys(sort_members(m))),
        sort_members(m).len() == m.len(),
    decreases m.len(),
{
    if m.len() > 0 {
        let s = sort_members(m.drop_last());
        lemma_sort_members_ordered(m.drop_last());
        let key = m.last().0;
        let k = slot_from(s, key, 0);
        lemma_slot(s, key, 0);
        assert forall|i: int| 0 <= i < k implies !text_lt(key, #[trigger] member_keys(s)[i]) by {
            assert(member_keys(s)[i] == s[i].0);
        }
        if k < s.len() {
            assert(member_keys(s)[k] == s[k].0);
        }
        lemma_insert_non_descending(member_keys(s), k, key);
        assert(member_keys(s.insert(k, m.last())) =~= member_keys(s).insert(k, key));
    }
}

proof fn lemma_sort_members_from(m: Seq<(Seq<char>, JsonView)>)
    ensures
        forall|i: int|
            0 <= i < sort_members(m).len() ==> exists|j: int|
                0 <= j < m.len() && #[trigger] sort_members(m)[i] == m[j],
    decreases m.len(),
{
    lemma_sort_members_ordered(m);
    if m.len() > 0 {
        let rest = m.drop_last();
        let s = sort_members(rest);
        lemma_sort_members_from(rest);
        lemma_sort_members_ordered(rest);
        let k = slot_from(s, m.last().0, 0);
        lemma_slot(s, m.last().0, 0);
        assert forall|i: int| 0 <= i < sort_members(m).len() implies exists|j: int|
            0 <= j < m.len() && #[trigger] sort_members(m)[i] == m[j] by {
            if i == k {
                assert(sort_members(m)[i] == m[m.len() - 1]);
            } else {
                let a = if i < k { i } else { i - 1 };
                assert(sort_members(m)[i] == s[a]);
                let j = choose|j: int| 0 <= j < rest.len() && s[a] == rest[j];
                assert(rest[j] == m[j]);
            }
        }
    }
}

/// Whether the members of every object in `v`, at every depth, come in the
/// order of their keys.
pub open spec fn keys_ordered(v: JsonView) -> bool
    decreases v,
{
    match v {
        JsonView::Array(items) => forall|i: int|
            0 <= i < items.len() ==> keys_ordered(#[trigger] items[i]),
        JsonView::Object(m) => non_descending(member_keys(m)) && forall|i: int|
            0 <= i < m.len() ==> keys_ordered(#[trigger] m[i].1),
        _ => true,
    }
}

/// In what [`sorted_json`] gives, the members of every object, at every
/// depth, come in the order of their keys.
pub proof fn lemma_sorted_json_ordered(v: JsonView)
    ensures
        keys_ordered(sorted_json(v)),
    decreases v,
{
    match v {
        JsonView::Array(items) => {
            let out = sorted_json(v)->Array_0;
            assert forall|i: int| 0 <= i < out.len() implies keys_ordered(#[trigger] out[i]) by {
                assert(out[i] == sorted_json(items[i]));
                lemma_sorted_json_ordered(items[i]);
            }
        },
        JsonView::Object(m) => {
            let x = sorted_members(m);
            let out = sort_members(x);
            lemma_sort_members_ordered(x);
            lemma_sort_members_from(x);
            assert(sorted_json(v)->Object_0 == out);
            assert forall|i: int| 0 <= i < out.len() implies keys_ordered(#[trigger] out[i].1) by {
                let j = choose|j: int| 0 <= j < x.len() && out[i] == x[j];
                assert(x[j].1 == sorted_json(m[j].1));
                lemma_sorted_json_ordered(m[j].1);
            }
        },
        _ => {},
    }
}

proof fn lemma_sort_members_sorted(s: Seq<(Seq<char>, JsonView)>)
    requires
        non_descending(member_keys(s)),
    ensures
        sort_members(s) == s,
    decreases s.len(),
{
    if s.len() > 0 {
        let rest = s.drop_last();
        assert forall|i: int, j: int| 0 <= i < j < member_keys(rest).len() implies !text_lt(
            #[trigger] member_keys(rest)[j],
            #[trigger] member_keys(rest)[i],
        ) by {
            assert(member_keys(rest)[i] == member_keys(s)[i]);
            assert(member_keys(rest)[j] == member_keys(s)[j]);
        }
        lemma_sort_members_sorted(rest);
        let key = s.last().0;
        lemma_slot(rest, key, 0);
        let k = slot_from(rest, key, 0);
        if k < rest.len() {
            assert(member_keys(s)[k] == rest[k].0);
            assert(member_keys(s)[s.len() - 1] == key);
        }
        assert(rest.insert(rest.len() as int, s.last()) =~= s);
    }
}

/// Canonical form is stable: sorting an already sorted value changes
/// nothing, so the canonical text of a canonical value is that text again.
pub proof fn lemma_sorted_json_stable(v: JsonView)
    ensures
        sorted_json(sorted_json(v)) == sorted_json(v),
    decreases v,
{
    match v {
        JsonView::Array(items) => {
            let once = sorted_json(v)->Array_0;
            let twice = sorted_json(sorted_json(v))->Array_0;
            assert forall|i: int| 0 <= i < once.len() implies #[trigger] twice[i] == once[i] by {
                assert(once[i] == sorted_json(items[i]));
                lemma_sorted_json_stable(items[i]);
            }
            assert(twice =~= once);
        },
        JsonView::Object(m) => {
            let x = sorted_members(m);
            let once = sort_members(x);
            lemma_sort_members_ordered(x);
            lemma_sort_members_from(x);
            assert(sorted_json(v) == JsonView::Object(once));
            let again = sorted_members(once);
            assert forall|i: int| 0 <= i < once.len() implies #[trigger] again[i] == once[i] by {
                let j = choose|j: int| 0 <= j < x.len() && once[i] == x[j];
                assert(x[j].1 == sorted_json(m[j].1));
                lemma_sorted_json_stable(m[j].1);
            }
            assert(again =~= once);
            lemma_sort_members_sorted(once);
        },
        _ => {},
    }
}

/// Where `key` goes among the members `out`, which are sorted by key.
fn find_slot(out: &Vec<(String, Json)>, key: &[char]) -> (k: usize)
    ensures
        k == slot_from(member_views(out@), key@, 0),
        k <= out@.len(),
{
    let ghost sv = member_views(out@);
    proof {
        lemma_slot(sv, key@, 0);
    }
    let mut k: usize = 0;
    while k < out.len()
        invariant
            k <= out@.len(),
            sv == member_views(out@),
            slot_from(sv, key@, 0) == slot_from(sv, key@, k as int),
        decreases out@.len() - k,
    {
        let other = chars_of(out[k].0.as_str());
        assert(sv[k as int].0 == other@);
        if text_less(key, other.as_slice()) {
            return k;
        }
        k += 1;
    }
    k
}

/// Appends the member `key: value` to the members of an object being built.
pub fn push_member(m: &mut Vec<(String, Json)>, key: &str, value: Json)
    ensures
        member_views(final(m)@) == member_views(old(m)@).push((key@, value@)),
{
    let ghost before = m@;
    m.push((String::from_str(key), value));
    assert(member_views(m@) =~= member_views(before).push((key@, value@)));
}

/// The object with these members.
pub fn object_of(m: Vec<(String, Json)>) -> (j: Json)
    ensures
        j@ == JsonView::Object(member_views(m@)),
{
    let j = Json::Object(m);
    assert(j@->Object_0 =~= member_views(m@));
    j
}

/// An optional string: the string, or `null`.
pub open spec fn opt_text_view(o: Option<Seq<char>>) -> JsonView {
    match o {
        Some(s) => JsonView::String(s),
        None => JsonView::Null,
    }
}

pub fn opt_text(o: &Option<String>) -> (j: Json)
    ensures
        j@ == opt_text_view(match o {
            Some(s) => Some(s@),
            None => None,
        }),
{
    match o {
        Some(s) => Json::String(s.clone()),
        None => Json::Null,
    }
}

/// An array of strings.
pub open spec fn texts_view(v: Seq<String>) -> JsonView {
    JsonView::Array(v.map_values(|s: String| JsonView::String(s@)))
}

pub fn texts(v: &Vec<String>) -> (j: Json)
    ensures
        j@ == texts_view(v@),
{
    let mut out: Vec<Json> = Vec::new();
    let mut i: usize = 0;
    while i < v.len()
        invariant
            i <= v@.len(),
            out@.len() == i,
            forall|k: int| 0 <= k < i ==> (#[trigger] out@[k])@ == JsonView::String(v@[k]@),
        decreases v@.len() - i,
    {
        out.push(Json::String(v[i].clone()));
        i += 1;
    }
    let j = Json::Array(out);
    assert(j@->Array_0 =~= texts_view(v@)->Array_0);
    j
}

/// A copy of `v` with the members of every object sorted by key.
pub fn sorted_copy(v: &Json) -> (r: Json)
    ensures
        r@ == sorted_json(v@),
    decreases v,
{
    match v {
        Json::Null => Json::Null,
        Json::Bool(b) => Json::Bool(*b),
        Json::PosInt(n) => Json::PosInt(*n),
        Json::NegInt(n) => Json::NegInt(*n),
        Json::Float(t) => Json::Float(t.clone()),
        Json::String(s) => Json::String(s.clone()),
        Json::Array(items) => {
            let ghost want = sorted_json(v@)->Array_0;
            let mut out: Vec<Json> = Vec::new();
            let mut i: usize = 0;
            while i < items.len()
                invariant
                    *v == Json::Array(*items),
                    i <= items@.len(),
                    out@.len() == i,
                    want.len() == items@.len(),
                    forall|j: int| 0 <= j < i ==> (#[trigger] out@[j])@ == want[j],
                    forall|j: int| 0 <= j < items@.len() ==> want[j] == sorted_json(#[trigger] items@[j]@),
                decreases items@.len() - i,
            {
                proof {
                    vstd::std_specs::vec::axiom_vec_index_decreases(*items, i as int);
                    assert(decreases_to!(*v => (*v)->Array_0));
                }
                let x = sorted_copy(&items[i]);
                out.push(x);
                i += 1;
            }
            let r = Json::Array(out);
            assert(r@->Array_0 =~= want);
            r
        },
        Json::Object(m) => {
            let ghost pre = Seq::new(m@.len(), |j: int| (m@[j].0@, sorted_json(m@[j].1@)));
            let mut out: Vec<(String, Json)> = Vec::new();
            let mut i: usize = 0;
            assert(pre.take(0) =~= Seq::<(Seq<char>, JsonView)>::empty());
            while i < m.len()
                invariant
                    *v == Json::Object(*m),
                    i <= m@.len(),
                    pre.len() == m@.len(),
                    forall|j: int| 0 <= j < m@.len() ==> #[trigger] pre[j] == (m@[j].0@, sorted_json(m@[j].1@)),
                    member_views(out@) == sort_members(pre.take(i as int)),
                decreases m@.len() - i,
            {
                proof {
                    vstd::std_specs::vec::axiom_vec_index_decreases(*m, i as int);
                    assert(decreases_to!(*v => (*v)->Object_0));
                    assert(decreases_to!(m[i as int] => m[i as int].1));
                }
                let key = m[i].0.clone();
                let val = sorted_copy(&m[i].1);
                let chars = chars_of(key.as_str());
                let k = find_slot(&out, chars.as_slice());
                let ghost before = out@;
                proof {
                    assert(pre.take(i + 1).drop_last() =~= pre.take(i as int));
                    assert(pre.take(i + 1).last() == pre[i as int]);
                }
                out.insert(k, (key, val));
                assert(member_views(out@) =~= member_views(before).insert(k as int, pre[i as int]));
                i += 1;
            }
            let r = Json::Object(out);
            proof {
                assert(pre.take(m@.len() as int) =~= pre);
                assert(r@->Object_0 =~= member_views(out@));
                let mv = v@->Object_0;
                assert(sorted_members(mv) =~= pre);
                assert(r@ == sorted_json(v@));
            }
            r
        },
    }
}

impl Json {
    /// `value.get(key)`: the member of an object named `key`.
    pub fn get(&self, key: &str) -> (r: Option<&Json>)
        ensures
            match r {
                Some(x) => spec_get(*self, key@) == Some(*x),
                None => spec_get(*self, key@) is None,
            },
    {
        match self {
            Json::Object(m) => {
                let mut i: usize = 0;
                while i < m.len()
                    invariant
                        i <= m@.len(),
                        members(*self) == m@,
                        member_index_from(m@, key@, 0) == member_index_from(m@, key@, i as int),
                    decreases m@.len() - i,
                {
                    if str_eq(m[i].0.as_str(), key) {
                        return Some(&m[i].1);
                    }
                    i += 1;
                }
                None
            },
            _ => None,
        }
    }

    pub fn as_str(&self) -> (r: Option<&str>)
        ensures
            match r {
                Some(s) => spec_as_str(Some(*self)) == Some(s@),
                None => spec_as_str(Some(*self)) is None,
            },
    {
        match self {
            Json::String(s) => Some(s.as_str()),
            _ => None,
        }
    }

    pub fn as_u64(&self) -> (r: Option<u64>)
        ensures
            r == spec_as_u64(Some(*self)),
    {
        match self {
            Json::PosInt(n) => Some(*n),
            _ => None,
        }
    }

    pub fn as_i64(&self) -> (r: Option<i64>)
        ensures
            r == spec_as_i64(Some(*self)),
    {
        match self {
            Json::PosInt(n) => {
                if *n <= 0x7fff_ffff_ffff_ffff {
                    Some(*n as i64)
                } else {
                    None
                }
            },
            Json::NegInt(n) => Some(*n),
            _ => None,
        }
    }

    pub fn is_object(&self) -> (r: bool)
        ensures
            r == is_object(*self),
    {
        match self {
            Json::Object(_) => true,
            _ => false,
        }
    }
}

/// Moves the member named `key` out of an object (the first one, as `get`
/// finds it).
pub fn take_member(v: Json, key: &str) -> (r: Option<Json>)
    ensures
        r == spec_get(v, key@),
{
    let ghost m0 = members(v);
    let mut m = into_members(v);
    let mut i: usize = 0;
    while i < m.len()
        invariant
            i <= m@.len(),
            m@ == m0,
            m0 == members(v),
            member_index_from(m0, key@, 0) == member_index_from(m0, key@, i as int),
        decreases m@.len() - i,
    {
        if str_eq(m[i].0.as_str(), key) {
            assert(member_index_from(m0, key@, i as int) == Some(i as int));
            let pair = m.remove(i);
            assert(pair == m0[i as int]);
            return Some(pair.1);
        }
        i += 1;
    }
    None
}

/// The members of an object, moved out; none for any other value.
fn into_members(v: Json) -> (m: Vec<(String, Json)>)
    ensures
        m@ == members(v),
{
    match v {
        Json::Object(m) => m,
        _ => Vec::new(),
    }
}

/// The string member named `key`, if there is one.
pub fn get_str<'a>(v: &'a Json, key: &str) -> (r: Option<&'a str>)
    ensures
        match r {
            Some(s) => spec_as_str(spec_get(*v, key@)) == Some(s@),
            None => spec_as_str(spec_get(*v, key@)) is None,
        },
{
    match v.get(key) {
        Some(x) => x.as_str(),
        None => None,
    }
}

/// Whether every member key of an object is one of `allowed` and every
/// `allowed` key is present.
pub open spec fn exact_keys(v: Json, allowed: Seq<Seq<char>>) -> bool {
    &&& forall|i: int| 0 <= i < members(v).len() ==> allowed.contains(#[trigger] members(v)[i].0@)
    &&& forall|j: int| 0 <= j < allowed.len() ==> has_key(v, #[trigger] allowed[j])
}

/// Whether every member key of an object is one of `allowed`.
pub open spec fn keys_within(v: Json, allowed: Seq<Seq<char>>) -> bool {
    forall|i: int| 0 <= i < members(v).len() ==> allowed.contains(#[trigger] members(v)[i].0@)
}

fn key_in(key: &str, allowed: &[&str]) -> (r: bool)
    ensures
        r == allowed@.map_values(|s: &str| s@).contains(key@),
{
    let ghost views = allowed@.map_values(|s: &str| s@);
    let mut i: usize = 0;
    while i < allowed.len()
        invariant
            i <= allowed@.len(),
            views == allowed@.map_values(|s: &str| s@),
            forall|j: int| 0 <= j < i ==> views[j] != key@,
        decreases allowed@.len() - i,
    {
        if str_eq(allowed[i], key) {
            assert(views[i as int] == key@);
            return true;
        }
        i += 1;
    }
    false
}

/// `keys_within` for an object value.
pub fn check_keys_within(v: &Json, allowed: &[&str]) -> (r: bool)
    ensures
        r == keys_within(*v, allowed@.map_values(|s: &str| s@)),
{
    let ghost views = allowed@.map_values(|s: &str| s@);
    match v {
        Json::Object(m) => {
            let mut i: usize = 0;
            while i < m.len()
                invariant
                    i <= m@.len(),
                    members(*v) == m@,
                    views == allowed@.map_values(|s: &str| s@),
                    forall|j: int| 0 <= j < i ==> views.contains(#[trigger] m@[j].0@),
                decreases m@.len() - i,
            {
                if !key_in(m[i].0.as_str(), allowed) {
                    return false;
                }
                i += 1;
            }
            true
        },
        _ => true,
    }
}

/// `exact_keys` for an object value.
pub fn check_exact_keys(v: &Json, allowed: &[&str]) -> (r: bool)
    ensures
        r == exact_keys(*v, allowed@.map_values(|s: &str| s@)),
{
    let ghost views = allowed@.map_values(|s: &str| s@);
    if !check_keys_within(v, allowed) {
        return false;
    }
    let mut j: usize = 0;
    while j < allowed.len()
        invariant
            j <= allowed@.len(),
            views == allowed@.map_values(|s: &str| s@),
            forall|k: int| 0 <= k < j ==> has_key(*v, #[trigger] views[k]),
        decreases allowed@.len() - j,
    {
        assert(views[j as int] == allowed@[j as int]@);
        if v.get(allowed[j]).is_none() {
            return false;
        }
        j += 1;
    }
    true
}


/// Why a typed field could not be read: it is absent, or of another type.
pub open spec fn missing_field(key: Seq<char>) -> Seq<char> {
    "missing field `"@ + key + "`"@
}

pub open spec fn wrong_type(key: Seq<char>) -> Seq<char> {
    "invalid type for field `"@ + key + "`"@
}

pub open spec fn not_an_object() -> Seq<char> {
    "invalid type: expected an object"@
}

fn field_message(prefix: &str, key: &str) -> (m: String)
    ensures
        m@ == prefix@ + key@ + "`"@,
{
    let mut m = String::from_str(prefix);
    m.append(key);
    m.append("`");
    m
}

pub open spec fn spec_field_str(v: Json, key: Seq<char>) -> Result<Seq<char>, Seq<char>> {
    match spec_get(v, key) {
        None => Err(missing_field(key)),
        Some(Json::String(s)) => Ok(s@),
        Some(_) => Err(wrong_type(key)),
    }
}

pub open spec fn spec_field_i64(v: Json, key: Seq<char>) -> Result<i64, Seq<char>> {
    match spec_get(v, key) {
        None => Err(missing_field(key)),
        Some(x) => match spec_as_i64(Some(x)) {
            Some(n) => Ok(n),
            None => Err(wrong_type(key)),
        },
    }
}

pub open spec fn spec_field_u64(v: Json, key: Seq<char>) -> Result<u64, Seq<char>> {
    match spec_get(v, key) {
        None => Err(missing_field(key)),
        Some(x) => match spec_as_u64(Some(x)) {
            Some(n) => Ok(n),
            None => Err(wrong_type(key)),
        },
    }
}

pub open spec fn all_strings(items: Seq<Json>) -> bool {
    forall|i: int| 0 <= i < items.len() ==> #[trigger] items[i] is String
}

pub open spec fn string_items(items: Seq<Json>) -> Seq<Seq<char>> {
    Seq::new(items.len(), |i: int| items[i]->String_0@)
}

/// A list of strings that defaults to empty when the field is absent.
pub open spec fn spec_field_str_list(v: Json, key: Seq<char>) -> Result<Seq<Seq<char>>, Seq<char>> {
    match spec_get(v, key) {
        None => Ok(Seq::empty()),
        Some(Json::Array(items)) => if all_strings(items@) {
            Ok(string_items(items@))
        } else {
            Err(wrong_type(key))
        },
        Some(_) => Err(wrong_type(key)),
    }
}

pub fn field_string(v: &Json, key: &str) -> (r: Result<String, String>)
    ensures
        match (r, spec_field_str(*v, key@)) {
            (Ok(s), Ok(t)) => s@ == t,
            (Err(m), Err(n)) => m@ == n,
            _ => false,
        },
{
    match v.get(key) {
        None => Err(field_message("missing field `", key)),
        Some(Json::String(s)) => Ok(s.clone()),
        Some(_) => Err(field_message("invalid type for field `", key)),
    }
}

pub fn field_i64(v: &Json, key: &str) -> (r: Result<i64, String>)
    ensures
        match (r, spec_field_i64(*v, key@)) {
            (Ok(s), Ok(t)) => s == t,
            (Err(m), Err(n)) => m@ == n,
            _ => false,
        },
{
    match v.get(key) {
        None => Err(field_message("missing field `", key)),
        Some(x) => match x.as_i64() {
            Some(n) => Ok(n),
            None => Err(field_message("invalid type for field `", key)),
        },
    }
}

pub fn field_u64(v: &Json, key: &str) -> (r: Result<u64, String>)
    ensures
        match (r, spec_field_u64(*v, key@)) {
            (Ok(s), Ok(t)) => s == t,
            (Err(m), Err(n)) => m@ == n,
            _ => false,
        },
{
    match v.get(key) {
        None => Err(field_message("missing field `", key)),
        Some(x) => match x.as_u64() {
            Some(n) => Ok(n),
            None => Err(field_message("invalid type for field `", key)),
        },
    }
}

pub fn field_string_list(v: &Json, key: &str) -> (r: Result<Vec<String>, String>)
    ensures
        match (r, spec_field_str_list(*v, key@)) {
            (Ok(s), Ok(t)) => s@.map_values(|x: String| x@) == t,
            (Err(m), Err(n)) => m@ == n,
            _ => false,
        },
{
    match v.get(key) {
        None => {
            let out: Vec<String> = Vec::new();
            assert(out@.map_values(|x: String| x@) =~= Seq::<Seq<char>>::empty());
            Ok(out)
        },
        Some(Json::Array(items)) => {
            let mut out: Vec<String> = Vec::new();
            let mut i: usize = 0;
            while i < items.len()
                invariant
                    i <= items@.len(),
                    spec_get(*v, key@) == Some(Json::Array(*items)),
                    forall|j: int| 0 <= j < i ==> #[trigger] items@[j] is String,
                    out@.map_values(|x: String| x@) == string_items(items@.take(i as int)),
                decreases items@.len() - i,
            {
                match &items[i] {
                    Json::String(s) => {
                        let c = s.clone();
                        assert(c@ == s@);
                        assert(items@[i as int] == Json::String(*s));
                        let ghost prev = out@;
                        out.push(c);
                        proof {
                            let f = |x: String| x@;
                            assert(out@.map_values(f) =~= prev.map_values(f).push(s@));
                            assert(string_items(items@.take(i + 1)) =~= string_items(
                                items@.take(i as int),
                            ).push(s@));
                        }
                        i += 1;
                    },
                    _ => {
                        assert(!(items@[i as int] is String));
                        return Err(field_message("invalid type for field `", key));
                    },
                }
            }
            assert(items@.take(items@.len() as int) =~= items@);
            Ok(out)
        },
        Some(_) => Err(field_message("invalid type for field `", key)),
    }
}

} // verus!
