//! JSON documents as the library holds them.
use vstd::prelude::*;

use crate::json::{fields_view, items_view, json_view, Json, JsonView};

verus! {

/// A field that is set is found, and the others stay.
pub proof fn field_is_found(
    m: Map<Seq<char>, JsonView>,
    k: Seq<char>,
    v: JsonView,
    other: Seq<char>,
    s: Seq<char>,
)
    requires
        other != k,
    ensures
        JsonView::Obj(m).with(k, v).get(k) == Some(v),
        JsonView::Obj(m).with(k, v).get(other) == JsonView::Obj(m).get(other),
        JsonView::Obj(m).with(k, v).at(k) == v,
        m.contains_key(other) ==> JsonView::Obj(m).get(other) == Some(m[other]),
        !m.contains_key(other) ==> JsonView::Obj(m).get(other) is None && JsonView::Obj(m).at(other)
            == JsonView::Null && JsonView::Obj(m).str_or(other, s) == s,
        JsonView::Obj(m).with_str(k, s).str_field(k) == Some(s),
        JsonView::object().get(k) is None && JsonView::object() is Obj,
        JsonView::Obj(m).with_opt_str(k, None) == JsonView::Obj(m),
        JsonView::Obj(m).with_opt_str(k, Some(s)).str_field(k) == Some(s),
        JsonView::Obj(m).with_opt(k, Some(v)).get(k) == Some(v),
        JsonView::Obj(m).with_opt(k, None) == JsonView::Obj(m),
{
}

/// A value is read as what it is, and as nothing else; a number only where it fits.
pub proof fn values_are_read(n: int, s: Seq<char>, b: bool, items: Seq<JsonView>)
    ensures
        JsonView::Str(s).as_str() == Some(s) && JsonView::Int(n).as_str() is None
            && JsonView::Null.as_str() is None && JsonView::Bool(b).as_str() is None
            && JsonView::Float(s).as_str() is None && JsonView::Arr(items).as_str() is None,
        JsonView::Bool(b).as_bool() == Some(b) && JsonView::Str(s).as_bool() is None
            && JsonView::Int(n).as_bool() is None && JsonView::Null.as_bool() is None,
        JsonView::Arr(items).as_arr() == Some(items) && JsonView::Str(s).as_arr() is None
            && JsonView::Null.as_arr() is None,
        0 <= n <= 0xffff_ffff_ffff_ffff ==> JsonView::Int(n).as_u64() == Some(n as u64),
        n < 0 || n > 0xffff_ffff_ffff_ffff ==> JsonView::Int(n).as_u64() is None,
        -0x8000_0000_0000_0000 <= n <= 0x7fff_ffff_ffff_ffff ==> JsonView::Int(n).as_i64() == Some(
            n as i64,
        ),
        n < -0x8000_0000_0000_0000 || n > 0x7fff_ffff_ffff_ffff ==> JsonView::Int(n).as_i64()
            is None,
        -0x8000_0000 <= n <= 0x7fff_ffff ==> JsonView::Int(n).as_i32() == Some(n as i32),
        n < -0x8000_0000 || n > 0x7fff_ffff ==> JsonView::Int(n).as_i32() is None,
        0 <= n <= 0xffff ==> JsonView::Int(n).as_u16() == Some(n as u16),
        n < 0 || n > 0xffff ==> JsonView::Int(n).as_u16() is None,
        JsonView::Str(s).as_u64() is None && JsonView::Float(s).as_u64() is None
            && JsonView::Str(s).as_i64() is None && JsonView::Float(s).as_i64() is None
            && JsonView::Str(s).as_i32() is None && JsonView::Str(s).as_u16() is None,
{
}

/// A document stands for what it holds: each value for itself, a list for its items in order, and
/// an object for its fields, of which the last of a name counts.
pub proof fn documents_stand_for_themselves(
    n: i128,
    s: String,
    b: bool,
    items: Seq<Json>,
    item: Json,
    fields: Seq<(String, Json)>,
    name: String,
)
    ensures
        json_view(Json::Null) == JsonView::Null,
        json_view(Json::Bool(b)) == JsonView::Bool(b),
        json_view(Json::Int(n)) == JsonView::Int(n as int),
        json_view(Json::Float(s)) == JsonView::Float(s@),
        json_view(Json::Str(s)) == JsonView::Str(s@),
        items_view(items.push(item)) == items_view(items).push(json_view(item)),
        items_view(Seq::empty()) == Seq::<JsonView>::empty(),
        fields_view(fields.push((name, item))) == fields_view(fields).insert(
            name@,
            json_view(item),
        ),
        fields_view(Seq::empty()) == Map::<Seq<char>, JsonView>::empty(),
{
    assert(items.push(item).drop_last() =~= items);
    assert(fields.push((name, item)).drop_last() =~= fields);
}

} // verus!
