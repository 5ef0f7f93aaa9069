//! JSON values as the journal and the model replies hold them, with the field
//! access rules of `serde_json::Value` (`value[key]`, `value.get(key)`,
//! `as_str`, `as_bool`, and assignment through `value[key] = ..`).
use vstd::prelude::*;
use crate::text::{decimal, decimal_text, owned, same_text};

verus! {

/// A JSON value. Numbers keep their decimal text; an object keeps its
/// members in order, and no two members of an object the library builds
/// share a key.
#[derive(Debug, PartialEq)]
pub enum Json {
    Null,
    Bool(bool),
    Number(String),
    Str(String),
    Array(Vec<Json>),
    Object(Vec<(String, Json)>),
}

/// The mathematical value of a `Json`.
pub enum JsonView {
    Null,
    Bool(bool),
    Number(Seq<char>),
    Str(Seq<char>),
    Array(Seq<JsonView>),
    Object(Seq<(Seq<char>, JsonView)>),
}

pub open spec fn json_view(j: Json) -> JsonView
    decreases j,
{
    match j {
        Json::Null => JsonView::Null,
        Json::Bool(b) => JsonView::Bool(b),
        Json::Number(t) => JsonView::Number(t@),
        Json::Str(s) => JsonView::Str(s@),
        Json::Array(items) => JsonView::Array(items_view(items@)),
        Json::Object(fields) => JsonView::Object(members_view(fields@)),
    }
}

pub open spec fn items_view(s: Seq<Json>) -> Seq<JsonView>
    decreases s,
{
    if s.len() == 0 {
        Seq::empty()
    } else {
        items_view(s.drop_last()).push(json_view(s.last()))
    }
}

pub open spec fn members_view(s: Seq<(String, Json)>) -> Seq<(Seq<char>, JsonView)>
    decreases s,
{
    if s.len() == 0 {
        Seq::empty()
    } else {
        members_view(s.drop_last()).push((s.last().0@, json_view(s.last().1)))
    }
}

impl View for Json {
    type V = JsonView;

    open spec fn view(&self) -> JsonView {
        json_view(*self)
    }
}

/// The views of a sequence of values.
pub open spec fn views(s: Seq<Json>) -> Seq<JsonView> {
    items_view(s)
}

pub proof fn lemma_items_view(s: Seq<Json>)
    ensures
        items_view(s).len() == s.len(),
        forall|i: int| 0 <= i < s.len() ==> #[trigger] items_view(s)[i] == s[i]@,
    decreases s.len(),
{
    if s.len() > 0 {
        lemma_items_view(s.drop_last());
    }
}

pub proof fn lemma_members_view(s: Seq<(String, Json)>)
    ensures
        members_view(s).len() == s.len(),
        forall|i: int| 0 <= i < s.len() ==> #[trigger] members_view(s)[i] == (s[i].0@, s[i].1@),
    decreases s.len(),
{
    if s.len() > 0 {
        lemma_members_view(s.drop_last());
    }
}

/// Views of a sequence extended by one value.
pub proof fn lemma_items_view_push(s: Seq<Json>, x: Json)
    ensures
        items_view(s.push(x)) == items_view(s).push(x@),
{
    assert(s.push(x).drop_last() == s);
}

/// The first index at or after `i` of a member with key `key`.
pub open spec fn key_index_from(fields: Seq<(Seq<char>, JsonView)>, key: Seq<char>, i: int) -> Option<int>
    decreases fields.len() - i,
{
    if i < 0 || i >= fields.len() {
        None
    } else if fields[i].0 == key {
        Some(i)
    } else {
        key_index_from(fields, key, i + 1)
    }
}

/// The index of the first member with key `key`.
pub open spec fn key_index(fields: Seq<(Seq<char>, JsonView)>, key: Seq<char>) -> Option<int> {
    key_index_from(fields, key, 0)
}

/// The keys of the members, in order.
pub open spec fn keys_of(fields: Seq<(Seq<char>, JsonView)>) -> Seq<Seq<char>> {
    Seq::new(fields.len(), |i: int| fields[i].0)
}

/// No two members share a key.
pub open spec fn distinct_keys(fields: Seq<(Seq<char>, JsonView)>) -> bool {
    forall|i: int, j: int| 0 <= i < j < fields.len() ==> fields[i].0 != fields[j].0
}

/// `j` is an object whose members have distinct keys.
pub open spec fn is_object(j: JsonView) -> bool {
    match j {
        JsonView::Object(fields) => distinct_keys(fields),
        _ => false,
    }
}

/// The members of an object (none for any other value).
pub open spec fn members(j: JsonView) -> Seq<(Seq<char>, JsonView)> {
    match j {
        JsonView::Object(fields) => fields,
        _ => Seq::empty(),
    }
}

/// The keys of `j`'s members, when `j` is an object.
pub open spec fn object_keys(j: JsonView) -> Seq<Seq<char>> {
    keys_of(members(j))
}

/// `value.get(key)`: the member's value when `value` is an object holding `key`.
pub open spec fn field(j: JsonView, key: Seq<char>) -> Option<JsonView> {
    match j {
        JsonView::Object(fields) => match key_index(fields, key) {
            Some(i) => Some(fields[i].1),
            None => None,
        },
        _ => None,
    }
}

/// `value[key]`: the member's value, or `null`.
pub open spec fn at(j: JsonView, key: Seq<char>) -> JsonView {
    match field(j, key) {
        Some(v) => v,
        None => JsonView::Null,
    }
}

/// `value.as_str()`.
pub open spec fn as_str(j: JsonView) -> Option<Seq<char>> {
    match j {
        JsonView::Str(s) => Some(s),
        _ => None,
    }
}

/// `value.as_bool()`.
pub open spec fn as_bool(j: JsonView) -> Option<bool> {
    match j {
        JsonView::Bool(b) => Some(b),
        _ => None,
    }
}

/// `value[key].as_str().unwrap_or("")`.
pub open spec fn text_at(j: JsonView, key: Seq<char>) -> Seq<char> {
    match as_str(at(j, key)) {
        Some(s) => s,
        None => Seq::empty(),
    }
}

/// `value[key].as_bool().unwrap_or(false)`.
pub open spec fn flag_at(j: JsonView, key: Seq<char>) -> bool {
    match as_bool(at(j, key)) {
        Some(b) => b,
        None => false,
    }
}

/// `j` is the string `s`.
pub open spec fn is_str(j: JsonView, s: Seq<char>) -> bool {
    as_str(j) == Some(s)
}

/// `j` is the number written `text`.
pub open spec fn is_number(j: JsonView, text: Seq<char>) -> bool {
    j == JsonView::Number(text)
}

/// The members after `value[key] = v`: the member's value is replaced where
/// the key is present, and a member is added at the end where it is not.
pub open spec fn set_member(fields: Seq<(Seq<char>, JsonView)>, key: Seq<char>, v: JsonView) -> Seq<(Seq<char>, JsonView)> {
    match key_index(fields, key) {
        Some(i) => fields.update(i, (fields[i].0, v)),
        None => fields.push((key, v)),
    }
}

/// `j` after `j[key] = v`, for `j` an object or `null` (`null` becomes an object).
pub open spec fn with_member(j: JsonView, key: Seq<char>, v: JsonView) -> JsonView {
    JsonView::Object(set_member(members(j), key, v))
}

pub proof fn lemma_key_index_from(fields: Seq<(Seq<char>, JsonView)>, key: Seq<char>, i: int)
    requires
        0 <= i,
    ensures
        match key_index_from(fields, key, i) {
            Some(k) => i <= k < fields.len() && fields[k].0 == key && forall|j: int|
                i <= j < k ==> fields[j].0 != key,
            None => forall|j: int| i <= j < fields.len() ==> fields[j].0 != key,
        },
    decreases fields.len() - i,
{
    if i < fields.len() && fields[i].0 != key {
        lemma_key_index_from(fields, key, i + 1);
    }
}

/// `key_index` finds the first member with the key, and `None` means no member has it.
pub proof fn lemma_key_index(fields: Seq<(Seq<char>, JsonView)>, key: Seq<char>)
    ensures
        match key_index(fields, key) {
            Some(k) => 0 <= k < fields.len() && fields[k].0 == key && forall|j: int|
                0 <= j < k ==> fields[j].0 != key,
            None => forall|j: int| 0 <= j < fields.len() ==> fields[j].0 != key,
        },
{
    lemma_key_index_from(fields, key, 0);
}

/// In an object with distinct keys, the member at index `k` is the one `key_index` finds.
pub proof fn lemma_key_index_distinct(fields: Seq<(Seq<char>, JsonView)>, k: int)
    requires
        distinct_keys(fields),
        0 <= k < fields.len(),
    ensures
        key_index(fields, fields[k].0) == Some(k),
{
    lemma_key_index(fields, fields[k].0);
}

/// Setting a member keeps the keys distinct; reading the key back gives the new
/// value, and every other key reads as before.
pub proof fn lemma_set_member(fields: Seq<(Seq<char>, JsonView)>, key: Seq<char>, v: JsonView)
    requires
        distinct_keys(fields),
    ensures
        distinct_keys(set_member(fields, key, v)),
        field(JsonView::Object(set_member(fields, key, v)), key) == Some(v),
        forall|k: Seq<char>|
            k != key ==> #[trigger] field(JsonView::Object(set_member(fields, key, v)), k) == field(
                JsonView::Object(fields),
                k,
            ),
{
    lemma_key_index(fields, key);
    let r = set_member(fields, key, v);
    lemma_key_index(r, key);
    match key_index(fields, key) {
        Some(i) => {
            assert(r[i].0 == key);
            assert forall|a: int, b: int| 0 <= a < b < r.len() implies r[a].0 != r[b].0 by {
                assert(r[a].0 == fields[a].0);
                assert(r[b].0 == fields[b].0);
            }
        },
        None => {
            assert(r[fields.len() as int].0 == key);
            assert forall|a: int, b: int| 0 <= a < b < r.len() implies r[a].0 != r[b].0 by {
                if b < fields.len() {
                    assert(r[a].0 == fields[a].0);
                }
            }
        },
    }
    assert forall|k: Seq<char>| k != key implies #[trigger] field(JsonView::Object(r), k) == field(
        JsonView::Object(fields),
        k,
    ) by {
        lemma_key_index(fields, k);
        lemma_key_index(r, k);
        match key_index(fields, k) {
            Some(i) => {
                if key_index(r, k) != Some(i) {
                    assert(r[i].0 == k);
                }
            },
            None => {
                if key_index(r, k) is Some {
                    let j = key_index(r, k)->0;
                    if j < fields.len() {
                        assert(r[j].0 == fields[j].0);
                    }
                }
            },
        }
    }
}

/// Reading a key right after setting it gives the value set (whatever the other
/// members are).
pub proof fn lemma_with_member_reads(j: JsonView, key: Seq<char>, v: JsonView)
    ensures
        field(with_member(j, key, v), key) == Some(v),
        at(with_member(j, key, v), key) == v,
{
    let f = members(j);
    let r = set_member(f, key, v);
    lemma_key_index(f, key);
    lemma_key_index(r, key);
    match key_index(f, key) {
        Some(i) => {
            assert(r[i].0 == key);
            if key_index(r, key) != Some(i) {
                let k = key_index(r, key)->0;
                assert(r[k].0 == f[k].0);
            }
        },
        None => {
            assert(r[f.len() as int].0 == key);
            if key_index(r, key) != Some(f.len() as int) {
                let k = key_index(r, key)->0;
                assert(r[k].0 == f[k].0);
            }
        },
    }
}

impl Json {
    /// A copy of the value.
    pub fn deep_clone(&self) -> (r: Json)
        ensures
            r@ == self@,
        decreases self,
    {
        match self {
            Json::Null => Json::Null,
            Json::Bool(b) => Json::Bool(*b),
            Json::Number(t) => Json::Number(t.clone()),
            Json::Str(s) => Json::Str(s.clone()),
            Json::Array(items) => {
                let mut out: Vec<Json> = Vec::new();
                let mut i: usize = 0;
                while i < items.len()
                    invariant
                        i <= items@.len(),
                        *self == Json::Array(*items),
                        items_view(out@) == items_view(items@.take(i as int)),
                    decreases items@.len() - i,
                {
                    proof {
                        assert(decreases_to!(*self => (*self)->Array_0));
                        assert(decreases_to!(*items => items@));
                        assert(decreases_to!(items@ => items@[i as int]));
                        assert(items@.take(i + 1).drop_last() == items@.take(i as int));
                    }
                    let c = items[i].deep_clone();
                    let ghost before = out@;
                    out.push(c);
                    proof {
                        assert(out@.drop_last() == before);
                    }
                    i = i + 1;
                }
                assert(items@.take(items@.len() as int) == items@);
                Json::Array(out)
            },
            Json::Object(fields) => {
                let mut out: Vec<(String, Json)> = Vec::new();
                let mut i: usize = 0;
                while i < fields.len()
                    invariant
                        i <= fields@.len(),
                        *self == Json::Object(*fields),
                        members_view(out@) == members_view(fields@.take(i as int)),
                    decreases fields@.len() - i,
                {
                    proof {
                        assert(decreases_to!(*self => (*self)->Object_0));
                        assert(decreases_to!(*fields => fields@));
                        assert(decreases_to!(fields@ => fields@[i as int]));
                        assert(decreases_to!(fields@[i as int] => fields@[i as int].1));
                        assert(fields@.take(i + 1).drop_last() == fields@.take(i as int));
                    }
                    let c = fields[i].1.deep_clone();
                    let k = fields[i].0.clone();
                    let ghost before = out@;
                    out.push((k, c));
                    proof {
                        assert(out@.drop_last() == before);
                    }
                    i = i + 1;
                }
                assert(fields@.take(fields@.len() as int) == fields@);
                Json::Object(out)
            },
        }
    }

    /// `self.get(key)`.
    pub fn field(&self, key: &str) -> (r: Option<&Json>)
        ensures
            match r {
                Some(v) => field(self@, key@) == Some(v@),
                None => field(self@, key@) is None,
            },
    {
        match self {
            Json::Object(fields) => {
                proof {
                    lemma_members_view(fields@);
                }
                let mut i: usize = 0;
                while i < fields.len()
                    invariant
                        i <= fields@.len(),
                        *self == Json::Object(*fields),
                        members_view(fields@).len() == fields@.len(),
                        forall|j: int| 0 <= j < fields@.len() ==> #[trigger] members_view(fields@)[j] == (fields@[j].0@, fields@[j].1@),
                        key_index(members_view(fields@), key@) == key_index_from(members_view(fields@), key@, i as int),
                    decreases fields@.len() - i,
                {
                    if same_text(fields[i].0.as_str(), key) {
                        assert(members_view(fields@)[i as int] == (fields@[i as int].0@, fields@[i as int].1@));
                        return Some(&fields[i].1);
                    }
                    assert(members_view(fields@)[i as int] == (fields@[i as int].0@, fields@[i as int].1@));
                    i = i + 1;
                }
                None
            },
            _ => None,
        }
    }

    /// `self[key].as_str()`.
    pub fn str_at(&self, key: &str) -> (r: Option<&String>)
        ensures
            match r {
                Some(s) => as_str(at(self@, key@)) == Some(s@),
                None => as_str(at(self@, key@)) is None,
            },
    {
        match self.field(key) {
            Some(Json::Str(s)) => Some(s),
            _ => None,
        }
    }

    /// `self[key].as_str().unwrap_or("")`, owned.
    pub fn text_at(&self, key: &str) -> (r: String)
        ensures
            r@ == text_at(self@, key@),
    {
        match self.str_at(key) {
            Some(s) => s.clone(),
            None => String::new(),
        }
    }

    /// `self[key].as_bool().unwrap_or(false)`.
    pub fn flag_at(&self, key: &str) -> (r: bool)
        ensures
            r == flag_at(self@, key@),
    {
        match self.field(key) {
            Some(Json::Bool(b)) => *b,
            _ => false,
        }
    }

    /// Whether `self` is `null`.
    pub fn is_null(&self) -> (r: bool)
        ensures
            r == (self@ is Null),
    {
        match self {
            Json::Null => true,
            _ => false,
        }
    }

    /// Whether `self` is an object or `null`, the values on which `self[key] = v` is defined.
    pub fn accepts_members(&self) -> (r: bool)
        ensures
            r == (self@ is Object || self@ is Null),
    {
        match self {
            Json::Object(_) => true,
            Json::Null => true,
            _ => false,
        }
    }

    /// The value after `self[key] = v`.
    pub fn with(self, key: String, v: Json) -> (r: Json)
        requires
            self@ is Object || self@ is Null,
        ensures
            r@ == with_member(self@, key@, v@),
    {
        match self {
            Json::Object(mut fields) => {
                let ghost orig = fields@;
                proof {
                    lemma_members_view(orig);
                }
                match member_index(&fields, &key) {
                    Some(k) => {
                        proof {
                            lemma_key_index(members_view(orig), key@);
                        }
                        let name = fields[k].0.clone();
                        let ghost kv = (name@, v@);
                        fields.set(k, (name, v));
                        proof {
                            lemma_members_view(fields@);
                            assert(members_view(fields@) == members_view(orig).update(k as int, kv));
                            assert(members_view(orig)[k as int] == (orig[k as int].0@, orig[k as int].1@));
                            assert(members_view(fields@) == set_member(members_view(orig), key@, v@));
                        }
                    },
                    None => {
                        proof {
                            assert(fields@.push((key, v)).drop_last() == fields@);
                        }
                        fields.push((key, v));
                        assert(members_view(fields@) == set_member(members_view(orig), key@, v@));
                    },
                }
                Json::Object(fields)
            },
            _ => {
                let mut fields: Vec<(String, Json)> = Vec::new();
                proof {
                    assert(fields@.push((key, v)).drop_last() == fields@);
                    assert(members_view(fields@) == Seq::<(Seq<char>, JsonView)>::empty());
                }
                fields.push((key, v));
                Json::Object(fields)
            },
        }
    }
}

/// The index of the first member with key `key`.
pub fn member_index(fields: &Vec<(String, Json)>, key: &String) -> (r: Option<usize>)
    ensures
        match r {
            Some(k) => key_index(members_view(fields@), key@) == Some(k as int),
            None => key_index(members_view(fields@), key@) is None,
        },
{
    proof {
        lemma_members_view(fields@);
    }
    let mut i: usize = 0;
    while i < fields.len()
        invariant
            i <= fields@.len(),
            members_view(fields@).len() == fields@.len(),
            forall|j: int| 0 <= j < fields@.len() ==> #[trigger] members_view(fields@)[j] == (fields@[j].0@, fields@[j].1@),
            key_index(members_view(fields@), key@) == key_index_from(members_view(fields@), key@, i as int),
        decreases fields@.len() - i,
    {
        assert(members_view(fields@)[i as int] == (fields@[i as int].0@, fields@[i as int].1@));
        if fields[i].0 == *key {
            return Some(i);
        }
        i = i + 1;
    }
    None
}

/// The JSON string holding the characters of `s`.
pub fn json_str(s: &str) -> (r: Json)
    ensures
        r@ == JsonView::Str(s@),
{
    Json::Str(owned(s))
}

/// The JSON number `n`.
pub fn json_count(n: usize) -> (r: Json)
    ensures
        r@ == JsonView::Number(decimal(n as nat)),
{
    Json::Number(decimal_text(n))
}

} // verus!
