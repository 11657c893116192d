//! JSON documents as plain values.
use vstd::prelude::*;

use crate::text::{opt_str, str_eq};

verus! {

/// A JSON document. Where an object names a field twice, the later one counts.
#[derive(Debug, PartialEq)]
pub enum Json {
    Null,
    Bool(bool),
    /// A whole number.
    Int(i128),
    /// Any other number, by its text.
    Float(String),
    Str(String),
    Arr(Vec<Json>),
    Obj(Vec<(String, Json)>),
}

/// What a JSON document says.
pub enum JsonView {
    Null,
    Bool(bool),
    Int(int),
    Float(Seq<char>),
    Str(Seq<char>),
    Arr(Seq<JsonView>),
    Obj(Map<Seq<char>, JsonView>),
}

pub open spec fn items_view(items: Seq<Json>) -> Seq<JsonView>
    decreases items,
{
    if items.len() == 0 {
        Seq::empty()
    } else {
        items_view(items.drop_last()).push(json_view(items.last()))
    }
}

pub open spec fn fields_view(fields: Seq<(String, Json)>) -> Map<Seq<char>, JsonView>
    decreases fields,
{
    if fields.len() == 0 {
        Map::empty()
    } else {
        fields_view(fields.drop_last()).insert(
            fields.last().0@,
            json_view(fields.last().1),
        )
    }
}

pub open spec fn json_view(j: Json) -> JsonView
    decreases j,
{
    match j {
        Json::Null => JsonView::Null,
        Json::Bool(b) => JsonView::Bool(b),
        Json::Int(n) => JsonView::Int(n as int),
        Json::Float(s) => JsonView::Float(s@),
        Json::Str(s) => JsonView::Str(s@),
        Json::Arr(items) => JsonView::Arr(items_view(items@)),
        Json::Obj(fields) => JsonView::Obj(fields_view(fields@)),
    }
}

impl View for Json {
    type V = JsonView;

    open spec fn view(&self) -> JsonView {
        json_view(*self)
    }
}

impl JsonView {
    /// The field `k` of an object.
    pub open spec fn get(self, k: Seq<char>) -> Option<JsonView> {
        match self {
            JsonView::Obj(m) => if m.contains_key(k) {
                Some(m[k])
            } else {
                None
            },
            _ => None,
        }
    }

    pub open spec fn as_str(self) -> Option<Seq<char>> {
        match self {
            JsonView::Str(s) => Some(s),
            _ => None,
        }
    }

    pub open spec fn as_bool(self) -> Option<bool> {
        match self {
            JsonView::Bool(b) => Some(b),
            _ => None,
        }
    }

    pub open spec fn as_u64(self) -> Option<u64> {
        match self {
            JsonView::Int(n) => if 0 <= n <= u64::MAX {
                Some(n as u64)
            } else {
                None
            },
            _ => None,
        }
    }

    pub open spec fn as_i64(self) -> Option<i64> {
        match self {
            JsonView::Int(n) => if i64::MIN <= n <= i64::MAX {
                Some(n as i64)
            } else {
                None
            },
            _ => None,
        }
    }

    pub open spec fn as_arr(self) -> Option<Seq<JsonView>> {
        match self {
            JsonView::Arr(items) => Some(items),
            _ => None,
        }
    }

    /// The text of the field `k`.
    pub open spec fn str_field(self, k: Seq<char>) -> Option<Seq<char>> {
        match self.get(k) {
            Some(v) => v.as_str(),
            None => None,
        }
    }

    /// The text of the field `k`, or `d` where it has none.
    pub open spec fn str_or(self, k: Seq<char>, d: Seq<char>) -> Seq<char> {
        match self.str_field(k) {
            Some(s) => s,
            None => d,
        }
    }

    pub open spec fn u64_field(self, k: Seq<char>) -> Option<u64> {
        match self.get(k) {
            Some(v) => v.as_u64(),
            None => None,
        }
    }

    pub open spec fn i64_field(self, k: Seq<char>) -> Option<i64> {
        match self.get(k) {
            Some(v) => v.as_i64(),
            None => None,
        }
    }

    pub open spec fn bool_field(self, k: Seq<char>) -> Option<bool> {
        match self.get(k) {
            Some(v) => v.as_bool(),
            None => None,
        }
    }

    /// The field `k`, or null where there is none.
    pub open spec fn at(self, k: Seq<char>) -> JsonView {
        match self.get(k) {
            Some(v) => v,
            None => JsonView::Null,
        }
    }

    /// The object with the field `k` set to `v`; anything but an object stays as it is.
    pub open spec fn with(self, k: Seq<char>, v: JsonView) -> JsonView {
        match self {
            JsonView::Obj(m) => JsonView::Obj(m.insert(k, v)),
            _ => self,
        }
    }

    pub open spec fn with_str(self, k: Seq<char>, v: Seq<char>) -> JsonView {
        self.with(k, JsonView::Str(v))
    }

    /// The object with the field `k` set to the text `v`, where there is one.
    pub open spec fn with_opt_str(self, k: Seq<char>, v: Option<Seq<char>>) -> JsonView {
        match v {
            Some(t) => self.with_str(k, t),
            None => self,
        }
    }

    /// The object with the field `k` set to the number `v`, where there is one.
    pub open spec fn with_opt_int(self, k: Seq<char>, v: Option<int>) -> JsonView {
        match v {
            Some(n) => self.with(k, JsonView::Int(n)),
            None => self,
        }
    }

    /// The object with the field `k` set to `v`, where there is one.
    pub open spec fn with_opt(self, k: Seq<char>, v: Option<JsonView>) -> JsonView {
        match v {
            Some(j) => self.with(k, j),
            None => self,
        }
    }

    pub open spec fn as_i32(self) -> Option<i32> {
        match self {
            JsonView::Int(n) => if i32::MIN <= n <= i32::MAX {
                Some(n as i32)
            } else {
                None
            },
            _ => None,
        }
    }

    pub open spec fn i32_field(self, k: Seq<char>) -> Option<i32> {
        match self.get(k) {
            Some(v) => v.as_i32(),
            None => None,
        }
    }

    /// The text of a field that may be left out or null; none where it is anything else.
    pub open spec fn opt_str_field(self, k: Seq<char>) -> Option<Option<Seq<char>>> {
        match self.get(k) {
            None => Some(None),
            Some(JsonView::Null) => Some(None),
            Some(v) => match v.as_str() {
                Some(s) => Some(Some(s)),
                None => None,
            },
        }
    }

    /// The number of a field that may be left out or null; none where it is anything else.
    pub open spec fn opt_u64_field(self, k: Seq<char>) -> Option<Option<u64>> {
        match self.get(k) {
            None => Some(None),
            Some(JsonView::Null) => Some(None),
            Some(v) => match v.as_u64() {
                Some(n) => Some(Some(n)),
                None => None,
            },
        }
    }

    /// The number of a field that may be left out or null; none where it is anything else.
    pub open spec fn opt_i32_field(self, k: Seq<char>) -> Option<Option<i32>> {
        match self.get(k) {
            None => Some(None),
            Some(JsonView::Null) => Some(None),
            Some(v) => match v.as_i32() {
                Some(n) => Some(Some(n)),
                None => None,
            },
        }
    }

    /// The object without fields.
    pub open spec fn object() -> JsonView {
        JsonView::Obj(Map::empty())
    }

    pub open spec fn as_u16(self) -> Option<u16> {
        match self {
            JsonView::Int(n) => if 0 <= n <= u16::MAX {
                Some(n as u16)
            } else {
                None
            },
            _ => None,
        }
    }

    pub open spec fn u16_field(self, k: Seq<char>) -> Option<u16> {
        match self.get(k) {
            Some(v) => v.as_u16(),
            None => None,
        }
    }

    /// The object of the record that a document holds: an object, or the list of all its fields in
    /// the order of their names.
    pub open spec fn record(self, names: Seq<Seq<char>>) -> Option<JsonView> {
        match self {
            JsonView::Obj(_) => Some(self),
            JsonView::Arr(items) => if items.len() == names.len() {
                Some(named(names, items))
            } else {
                None
            },
            _ => None,
        }
    }
}

/// The object whose fields have these names and these values, in order.
pub open spec fn named(names: Seq<Seq<char>>, items: Seq<JsonView>) -> JsonView
    decreases names.len(),
{
    if names.len() == 0 {
        JsonView::object()
    } else {
        named(names.drop_last(), items.drop_last()).with(names.last(), items.last())
    }
}

pub open spec fn names_view(names: Seq<&str>) -> Seq<Seq<char>> {
    names.map_values(|n: &str| n@)
}

pub proof fn lemma_items_view(items: Seq<Json>)
    ensures
        items_view(items).len() == items.len(),
        forall|i: int| 0 <= i < items.len() ==> #[trigger] items_view(items)[i] == items[i]@,
    decreases items.len(),
{
    if items.len() > 0 {
        lemma_items_view(items.drop_last());
    }
}

proof fn lemma_fields_view_last(fields: Seq<(String, Json)>, k: Seq<char>, i: int)
    requires
        0 <= i < fields.len(),
        fields[i].0@ == k,
        forall|j: int| i < j < fields.len() ==> (#[trigger] fields[j]).0@ != k,
    ensures
        fields_view(fields).contains_key(k),
        fields_view(fields)[k] == fields[i].1@,
    decreases fields.len(),
{
    if i < fields.len() - 1 {
        assert(fields[fields.len() - 1].0@ != k);
        lemma_fields_view_last(fields.drop_last(), k, i);
    }
}

proof fn lemma_fields_view_none(fields: Seq<(String, Json)>, k: Seq<char>)
    requires
        forall|j: int| 0 <= j < fields.len() ==> (#[trigger] fields[j]).0@ != k,
    ensures
        !fields_view(fields).contains_key(k),
    decreases fields.len(),
{
    if fields.len() > 0 {
        assert(fields[fields.len() - 1].0@ != k);
        lemma_fields_view_none(fields.drop_last(), k);
    }
}

proof fn lemma_fields_view_some(fields: Seq<(String, Json)>, i: int)
    requires
        0 <= i < fields.len(),
    ensures
        fields_view(fields).contains_key(fields[i].0@),
    decreases fields.len(),
{
    if i < fields.len() - 1 {
        lemma_fields_view_some(fields.drop_last(), i);
    }
}

proof fn lemma_fields_view_same(fields: Seq<(String, Json)>, k: Seq<char>)
    requires
        forall|j: int| 0 <= j < fields.len() ==> (#[trigger] fields[j]).0@ == k,
    ensures
        forall|q: Seq<char>| #[trigger] fields_view(fields).contains_key(q) ==> q == k,
    decreases fields.len(),
{
    if fields.len() > 0 {
        assert(fields[fields.len() - 1].0@ == k);
        let init = fields.drop_last();
        assert forall|j: int| 0 <= j < init.len() implies (#[trigger] init[j]).0@ == k by {
            assert(fields[j].0@ == k);
        }
        lemma_fields_view_same(init, k);
        assert forall|q: Seq<char>| #[trigger] fields_view(fields).contains_key(q) implies q
            == k by {
            if q != fields.last().0@ {
                assert(fields_view(init).contains_key(q));
            }
        }
    }
}

/// The fields of a list that are named in order are its items.
pub proof fn list_names_its_fields(names: Seq<Seq<char>>, items: Seq<JsonView>, i: int)
    requires
        names.no_duplicates(),
        items.len() == names.len(),
        0 <= i < names.len(),
    ensures
        JsonView::Arr(items).record(names) == Some(named(names, items)),
        named(names, items) is Obj,
        named(names, items).get(names[i]) == Some(items[i]),
    decreases names.len(),
{
    let init = names.drop_last();
    lemma_named_is_object(init, items.drop_last());
    if i < init.len() {
        assert(names[i] != names[names.len() - 1]);
        list_names_its_fields(init, items.drop_last(), i);
    }
}

proof fn lemma_named_is_object(names: Seq<Seq<char>>, items: Seq<JsonView>)
    requires
        items.len() == names.len(),
    ensures
        named(names, items) is Obj,
    decreases names.len(),
{
    if names.len() > 0 {
        lemma_named_is_object(names.drop_last(), items.drop_last());
    }
}

/// A copy of each of `items`.
pub fn copy_items(items: &Vec<Json>) -> (r: Vec<Json>)
    ensures
        items_view(r@) == items_view(items@),
        r@.len() == items@.len(),
    decreases items,
{
    let mut r: Vec<Json> = Vec::new();
    let mut i: usize = 0;
    assert(items@.take(0) =~= Seq::<Json>::empty());
    while i < items.len()
        invariant
            i <= items@.len(),
            r@.len() == i,
            items_view(r@) == items_view(items@.take(i as int)),
        decreases items@.len() - i,
    {
        let c = items[i].copy();
        let ghost before = r@;
        r.push(c);
        assert(r@.drop_last() =~= before);
        assert(items@.take(i + 1).drop_last() =~= items@.take(i as int));
        i = i + 1;
    }
    assert(items@.take(items@.len() as int) =~= items@);
    r
}

/// A copy of each of `fields`.
pub fn copy_fields(fields: &Vec<(String, Json)>) -> (r: Vec<(String, Json)>)
    ensures
        fields_view(r@) == fields_view(fields@),
    decreases fields,
{
    let mut r: Vec<(String, Json)> = Vec::new();
    let mut i: usize = 0;
    assert(fields@.take(0) =~= Seq::<(String, Json)>::empty());
    while i < fields.len()
        invariant
            i <= fields@.len(),
            r@.len() == i,
            fields_view(r@) == fields_view(fields@.take(i as int)),
        decreases fields@.len() - i,
    {
        let field = &fields[i];
        assert(decreases_to!(fields => fields@[i as int].1)) by {
            assert(decreases_to!(fields => fields@));
            assert(decreases_to!(fields@ => fields@[i as int]));
            assert(decreases_to!(fields@[i as int] => fields@[i as int].1));
        }
        let c = field.1.copy();
        let ghost before = r@;
        r.push((field.0.clone(), c));
        assert(r@.drop_last() =~= before);
        assert(fields@.take(i + 1).drop_last() =~= fields@.take(i as int));
        i = i + 1;
    }
    assert(fields@.take(fields@.len() as int) =~= fields@);
    r
}

impl Json {
    /// A copy that says the same.
    pub fn copy(&self) -> (r: Json)
        ensures
            r@ == self@,
        decreases self,
    {
        match self {
            Json::Null => Json::Null,
            Json::Bool(b) => Json::Bool(*b),
            Json::Int(n) => Json::Int(*n),
            Json::Float(s) => Json::Float(s.clone()),
            Json::Str(s) => Json::Str(s.clone()),
            Json::Arr(items) => Json::Arr(copy_items(items)),
            Json::Obj(fields) => Json::Obj(copy_fields(fields)),
        }
    }

    /// The field `k` of an object.
    pub fn get(&self, k: &str) -> (r: Option<&Json>)
        ensures
            match r {
                Some(v) => self@.get(k@) == Some(v@),
                None => self@.get(k@) is None,
            },
    {
        match self {
            Json::Obj(fields) => {
                let mut i: usize = fields.len();
                while i > 0
                    invariant
                        *self == Json::Obj(*fields),
                        i <= fields@.len(),
                        forall|j: int| i <= j < fields@.len() ==> (#[trigger] fields@[j]).0@ != k@,
                    decreases i,
                {
                    i = i - 1;
                    if str_eq(fields[i].0.as_str(), k) {
                        proof {
                            lemma_fields_view_last(fields@, k@, i as int);
                        }
                        return Some(&fields[i].1);
                    }
                }
                proof {
                    lemma_fields_view_none(fields@, k@);
                }
                None
            },
            _ => None,
        }
    }

    pub fn as_str(&self) -> (r: Option<&str>)
        ensures
            opt_str(r) == self@.as_str(),
    {
        match self {
            Json::Str(s) => Some(s.as_str()),
            _ => None,
        }
    }

    pub fn as_bool(&self) -> (r: Option<bool>)
        ensures
            r == self@.as_bool(),
    {
        match self {
            Json::Bool(b) => Some(*b),
            _ => None,
        }
    }

    pub fn as_u64(&self) -> (r: Option<u64>)
        ensures
            r == self@.as_u64(),
    {
        match self {
            Json::Int(n) => if 0 <= *n && *n <= 18446744073709551615i128 {
                Some(*n as u64)
            } else {
                None
            },
            _ => None,
        }
    }

    pub fn as_i64(&self) -> (r: Option<i64>)
        ensures
            r == self@.as_i64(),
    {
        match self {
            Json::Int(n) => if -9223372036854775808i128 <= *n && *n <= 9223372036854775807i128 {
                Some(*n as i64)
            } else {
                None
            },
            _ => None,
        }
    }

    pub fn as_arr(&self) -> (r: Option<&Vec<Json>>)
        ensures
            match r {
                Some(items) => self@.as_arr() == Some(items_view(items@)),
                None => self@.as_arr() is None,
            },
    {
        match self {
            Json::Arr(items) => Some(items),
            _ => None,
        }
    }

    /// The text of the field `k`.
    pub fn str_field(&self, k: &str) -> (r: Option<&str>)
        ensures
            opt_str(r) == self@.str_field(k@),
    {
        match self.get(k) {
            Some(v) => v.as_str(),
            None => None,
        }
    }

    /// The text of the field `k`, or `d` where it has none.
    pub fn str_or<'a>(&'a self, k: &str, d: &'a str) -> (r: &'a str)
        ensures
            r@ == self@.str_or(k@, d@),
    {
        match self.str_field(k) {
            Some(s) => s,
            None => d,
        }
    }

    pub fn u64_field(&self, k: &str) -> (r: Option<u64>)
        ensures
            r == self@.u64_field(k@),
    {
        match self.get(k) {
            Some(v) => v.as_u64(),
            None => None,
        }
    }

    pub fn i64_field(&self, k: &str) -> (r: Option<i64>)
        ensures
            r == self@.i64_field(k@),
    {
        match self.get(k) {
            Some(v) => v.as_i64(),
            None => None,
        }
    }

    pub fn bool_field(&self, k: &str) -> (r: Option<bool>)
        ensures
            r == self@.bool_field(k@),
    {
        match self.get(k) {
            Some(v) => v.as_bool(),
            None => None,
        }
    }

    /// A copy of the field `k`, or null where there is none.
    pub fn at(&self, k: &str) -> (r: Json)
        ensures
            r@ == self@.at(k@),
    {
        match self.get(k) {
            Some(v) => v.copy(),
            None => Json::Null,
        }
    }

    /// The object without fields.
    pub fn object() -> (r: Json)
        ensures
            r@ == JsonView::object(),
    {
        Json::Obj(Vec::new())
    }

    /// The text `s`.
    pub fn text(s: &str) -> (r: Json)
        ensures
            r@ == JsonView::Str(s@),
    {
        Json::Str(s.to_owned())
    }

    /// The object with the field `k` set to `v`; anything but an object stays as it is.
    pub fn with(self, k: &str, v: Json) -> (r: Json)
        ensures
            r@ == self@.with(k@, v@),
    {
        match self {
            Json::Obj(fields) => {
                let mut fields = fields;
                let ghost before = fields@;
                fields.push((k.to_owned(), v));
                assert(fields@.drop_last() =~= before);
                Json::Obj(fields)
            },
            other => other,
        }
    }

    /// The object with the field `k` set to the text `v`.
    pub fn with_str(self, k: &str, v: &str) -> (r: Json)
        ensures
            r@ == self@.with_str(k@, v@),
    {
        self.with(k, Json::text(v))
    }

    /// The object with the field `k` set to the text `v`, where there is one.
    pub fn with_opt_str(self, k: &str, v: &Option<String>) -> (r: Json)
        ensures
            r@ == self@.with_opt_str(k@, crate::text::opt_text(*v)),
    {
        match v {
            Some(t) => self.with_str(k, t.as_str()),
            None => self,
        }
    }

    /// The object with the field `k` set to the number `v`, where there is one.
    pub fn with_opt_int(self, k: &str, v: Option<i128>) -> (r: Json)
        ensures
            r@ == self@.with_opt_int(
                k@,
                match v {
                    Some(n) => Some(n as int),
                    None => None,
                },
            ),
    {
        match v {
            Some(n) => self.with(k, Json::Int(n)),
            None => self,
        }
    }

    /// The object with the field `k` set to `v`, where there is one.
    pub fn with_opt(self, k: &str, v: Option<Json>) -> (r: Json)
        ensures
            r@ == self@.with_opt(
                k@,
                match v {
                    Some(j) => Some(j@),
                    None => None,
                },
            ),
    {
        match v {
            Some(j) => self.with(k, j),
            None => self,
        }
    }

    pub fn as_i32(&self) -> (r: Option<i32>)
        ensures
            r == self@.as_i32(),
    {
        match self {
            Json::Int(n) => if -2147483648i128 <= *n && *n <= 2147483647i128 {
                Some(*n as i32)
            } else {
                None
            },
            _ => None,
        }
    }

    pub fn i32_field(&self, k: &str) -> (r: Option<i32>)
        ensures
            r == self@.i32_field(k@),
    {
        match self.get(k) {
            Some(v) => v.as_i32(),
            None => None,
        }
    }

    /// The text of a field that may be left out or null; none where it is anything else.
    pub fn opt_str_field(&self, k: &str) -> (r: Option<Option<String>>)
        ensures
            match r {
                Some(o) => self@.opt_str_field(k@) == Some(crate::text::opt_text(o)),
                None => self@.opt_str_field(k@) is None,
            },
    {
        match self.get(k) {
            None => Some(None),
            Some(Json::Null) => Some(None),
            Some(v) => match v.as_str() {
                Some(s) => Some(Some(s.to_owned())),
                None => None,
            },
        }
    }

    /// The number of a field that may be left out or null; none where it is anything else.
    pub fn opt_u64_field(&self, k: &str) -> (r: Option<Option<u64>>)
        ensures
            r == self@.opt_u64_field(k@),
    {
        match self.get(k) {
            None => Some(None),
            Some(Json::Null) => Some(None),
            Some(v) => match v.as_u64() {
                Some(n) => Some(Some(n)),
                None => None,
            },
        }
    }

    /// The number of a field that may be left out or null; none where it is anything else.
    pub fn opt_i32_field(&self, k: &str) -> (r: Option<Option<i32>>)
        ensures
            r == self@.opt_i32_field(k@),
    {
        match self.get(k) {
            None => Some(None),
            Some(Json::Null) => Some(None),
            Some(v) => match v.as_i32() {
                Some(n) => Some(Some(n)),
                None => None,
            },
        }
    }

    pub fn as_u16(&self) -> (r: Option<u16>)
        ensures
            r == self@.as_u16(),
    {
        match self {
            Json::Int(n) => if 0 <= *n && *n <= 65535 {
                Some(*n as u16)
            } else {
                None
            },
            _ => None,
        }
    }

    pub fn u16_field(&self, k: &str) -> (r: Option<u16>)
        ensures
            r == self@.u16_field(k@),
    {
        match self.get(k) {
            Some(v) => v.as_u16(),
            None => None,
        }
    }

    /// The object of a record that a document holds as the list of its fields.
    pub fn listed(&self, names: &[&str]) -> (r: Option<Json>)
        ensures
            match r {
                Some(o) => self@ is Arr && self@.record(names_view(names@)) == Some(o@),
                None => self@ is Arr ==> self@.record(names_view(names@)) is None,
            },
    {
        match self {
            Json::Arr(items) => {
                proof {
                    lemma_items_view(items@);
                }
                if items.len() != names.len() {
                    return None;
                }
                let ghost all = names_view(names@);
                let ghost values = items_view(items@);
                let mut o = Json::object();
                let mut i: usize = 0;
                while i < names.len()
                    invariant
                        i <= names@.len(),
                        names@.len() == items@.len(),
                        all == names_view(names@),
                        values.len() == items@.len(),
                        forall|k: int|
                            0 <= k < items@.len() ==> #[trigger] values[k] == items@[k]@,
                        o@ == named(all.take(i as int), values.take(i as int)),
                    decreases names@.len() - i,
                {
                    o = o.with(names[i], items[i].copy());
                    assert(all.take(i + 1).drop_last() =~= all.take(i as int));
                    assert(values.take(i + 1).drop_last() =~= values.take(i as int));
                    i = i + 1;
                }
                assert(all.take(i as int) =~= all);
                assert(values.take(i as int) =~= values);
                Some(o)
            },
            _ => None,
        }
    }

    pub fn is_object(&self) -> (r: bool)
        ensures
            r == self@ is Obj,
    {
        match self {
            Json::Obj(_) => true,
            _ => false,
        }
    }

    /// Whether an object holds null under `k`, and nothing else.
    pub fn holds_only_null(&self, k: &str) -> (r: bool)
        ensures
            r == (self@ == JsonView::object().with(k@, JsonView::Null)),
    {
        match self {
            Json::Obj(fields) => {
                let ghost one = Map::<Seq<char>, JsonView>::empty().insert(k@, JsonView::Null);
                let mut i: usize = 0;
                while i < fields.len()
                    invariant
                        *self == Json::Obj(*fields),
                        i <= fields@.len(),
                        forall|j: int| 0 <= j < i ==> (#[trigger] fields@[j]).0@ == k@,
                        one == Map::<Seq<char>, JsonView>::empty().insert(k@, JsonView::Null),
                    decreases fields@.len() - i,
                {
                    if !str_eq(fields[i].0.as_str(), k) {
                        proof {
                            lemma_fields_view_some(fields@, i as int);
                            assert(!one.contains_key(fields@[i as int].0@));
                        }
                        return false;
                    }
                    i = i + 1;
                }
                proof {
                    lemma_fields_view_same(fields@, k@);
                }
                match self.get(k) {
                    Some(Json::Null) => {
                        assert(fields_view(fields@) =~= one);
                        true
                    },
                    _ => {
                        assert(one.contains_key(k@));
                        false
                    },
                }
            },
            _ => false,
        }
    }
}

} // verus!
