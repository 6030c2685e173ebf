//! What holds of the contents of D-Bus values.
use vstd::prelude::*;
use zbus::zvariant::Value;

use crate::value::{
    all_hold, fd_free, key_less, peeled, plain, simple, sortable, text_less, variant,
    value_holds, variant_array, variant_dict, KeyModel, ValueModel,
};

verus! {

/// One variant layer, and no more, is taken off: a value in a variant is that value, and a value
/// without one stays as it is.
pub proof fn one_layer_is_taken_off(m: ValueModel)
    ensures
        variant(m) == ValueModel::Variant(Box::new(m)),
        peeled(variant(m)) == m,
        m !is Variant ==> peeled(m) == m,
        peeled(variant(variant(m))) == variant(m),
{
}

/// A dictionary of properties on the bus has their names as its keys and each value in a variant.
pub proof fn properties_on_the_bus(m: Map<Seq<char>, ValueModel>, name: Seq<char>, k: KeyModel)
    ensures
        variant_dict(m).contains_key(KeyModel::Str(name)) <==> m.contains_key(name),
        m.contains_key(name) ==> variant_dict(m)[KeyModel::Str(name)] == ValueModel::Variant(
            Box::new(m[name]),
        ),
        variant_dict(m).contains_key(k) ==> k is Str,
{
}

/// A list of values on the bus has each value in a variant, in order.
pub proof fn values_on_the_bus(values: Seq<ValueModel>, i: int)
    requires
        0 <= i < values.len(),
    ensures
        variant_array(values) is Array,
        variant_array(values)->Array_0.len() == values.len(),
        variant_array(values)->Array_0[i] == ValueModel::Variant(Box::new(values[i])),
{
}

/// Numbers as keys are ordered as numbers, truth values with false first, texts and object paths
/// by their characters.
pub proof fn keys_are_ordered_as_they_are(
    a: i64,
    b: i64,
    c: u64,
    d: u64,
    x: i32,
    y: i32,
    s: Seq<char>,
    t: Seq<char>,
)
    ensures
        key_less(KeyModel::Str(s), KeyModel::Str(t)) <==> text_less(s, t),
        key_less(KeyModel::ObjectPath(s), KeyModel::ObjectPath(t)) <==> text_less(s, t),
        0 <= a <= u8::MAX && 0 <= b <= u8::MAX ==> (key_less(
            KeyModel::U8(a as u8),
            KeyModel::U8(b as u8),
        ) <==> a < b),
        i16::MIN <= a <= i16::MAX && i16::MIN <= b <= i16::MAX ==> (key_less(
            KeyModel::I16(a as i16),
            KeyModel::I16(b as i16),
        ) <==> a < b),
        0 <= a <= u16::MAX && 0 <= b <= u16::MAX ==> (key_less(
            KeyModel::U16(a as u16),
            KeyModel::U16(b as u16),
        ) <==> a < b),
        0 <= a <= u32::MAX && 0 <= b <= u32::MAX ==> (key_less(
            KeyModel::U32(a as u32),
            KeyModel::U32(b as u32),
        ) <==> a < b),
        key_less(KeyModel::I64(a), KeyModel::I64(b)) <==> a < b,
        key_less(KeyModel::U64(c), KeyModel::U64(d)) <==> c < d,
        key_less(KeyModel::I32(x), KeyModel::I32(y)) <==> x < y,
        key_less(KeyModel::Bool(false), KeyModel::Bool(true)),
        !key_less(KeyModel::Bool(true), KeyModel::Bool(false)),
{
}

/// A text comes before another exactly if it ends where the other goes on, or has the smaller
/// character at the first place where they differ.
pub proof fn texts_are_ordered_by_character(a: Seq<char>, b: Seq<char>, n: int)
    requires
        0 <= n <= a.len(),
        n <= b.len(),
        forall|i: int| 0 <= i < n ==> a[i] == b[i],
    ensures
        n < a.len() && n < b.len() && a[n] != b[n] ==> (text_less(a, b) <==> a[n] < b[n]),
        n == a.len() ==> (text_less(a, b) <==> n < b.len()),
        n == b.len() ==> !text_less(a, b),
    decreases n,
{
    if n > 0 {
        assert(a[0] == b[0]);
        let (x, y) = (a.drop_first(), b.drop_first());
        assert forall|i: int| 0 <= i < n - 1 implies x[i] == y[i] by {
            assert(a[i + 1] == b[i + 1]);
        }
        texts_are_ordered_by_character(x, y, n - 1);
    }
}

/// A dictionary with several keys can be sorted only if each of them is simple or a file
/// descriptor.
pub proof fn keys_need_an_order(entries: Seq<(ValueModel, ValueModel)>, i: int)
    requires
        entries.len() > 1,
        0 <= i < entries.len(),
        !simple(entries[i].0),
        entries[i].0 !is Fd,
    ensures
        !sortable(ValueModel::OddDict(entries)),
{
    let m = ValueModel::OddDict(entries);
    assert(m->OddDict_0[i] == entries[i]);
}

/// A dictionary can be sorted if its entries can and it has a single key, or if each of its keys is
/// simple or a file descriptor.
pub proof fn orderly_dictionaries_can_be_sorted(entries: Seq<(ValueModel, ValueModel)>)
    requires
        forall|i: int|
            0 <= i < entries.len() ==> sortable((#[trigger] entries[i]).0) && sortable(
                entries[i].1,
            ),
        entries.len() == 1 || forall|i: int|
            0 <= i < entries.len() ==> simple((#[trigger] entries[i]).0) || entries[i].0 is Fd,
    ensures
        sortable(ValueModel::OddDict(entries)),
{
}

/// A dictionary with simple keys can be sorted exactly if its values can, and is free of file
/// descriptors exactly if they are.
pub proof fn values_decide(dict: Map<KeyModel, ValueModel>)
    ensures
        sortable(ValueModel::Dict(dict)) <==> forall|k: KeyModel|
            dict.contains_key(k) ==> sortable(#[trigger] dict[k]),
        fd_free(ValueModel::Dict(dict)) <==> forall|k: KeyModel|
            dict.contains_key(k) ==> fd_free(#[trigger] dict[k]),
{
    let m = ValueModel::Dict(dict);
    if sortable(m) {
        assert forall|k: KeyModel| dict.contains_key(k) implies sortable(#[trigger] dict[k]) by {
            assert(sortable(m->Dict_0[k]));
        }
    }
    if fd_free(m) {
        assert forall|k: KeyModel| dict.contains_key(k) implies fd_free(#[trigger] dict[k]) by {
            assert(fd_free(m->Dict_0[k]));
        }
    }
}

/// A value cannot be sorted if a part of it cannot, and a value with a file descriptor in a part
/// has one itself.
pub proof fn parts_decide(parts: Seq<ValueModel>, i: int)
    requires
        0 <= i < parts.len(),
    ensures
        !sortable(parts[i]) ==> !sortable(ValueModel::Array(parts)) && !sortable(
            ValueModel::Structure(parts),
        ) && !sortable(variant(parts[i])),
        !fd_free(parts[i]) ==> !fd_free(ValueModel::Array(parts)) && !fd_free(
            ValueModel::Structure(parts),
        ) && !fd_free(variant(parts[i])),
        !fd_free(ValueModel::Fd),
{
    let (a, s) = (ValueModel::Array(parts), ValueModel::Structure(parts));
    assert(a->Array_0[i] == parts[i]);
    assert(s->Structure_0[i] == parts[i]);
}

/// Simple values, and lists and structures of plain values, are plain.
pub proof fn plain_parts_make_plain_values(parts: Seq<ValueModel>, m: ValueModel)
    requires
        forall|i: int| 0 <= i < parts.len() ==> plain(#[trigger] parts[i]),
    ensures
        plain(ValueModel::Array(parts)),
        plain(ValueModel::Structure(parts)),
        simple(m) ==> plain(m),
        plain(m) ==> plain(variant(m)),
{
}

/// The contents of a list of values are those of each value, in order.
pub proof fn contents_keep_their_order(values: Seq<Value<'static>>, i: int)
    requires
        0 <= i < values.len(),
    ensures
        all_hold(values).len() == values.len(),
        all_hold(values)[i] == value_holds(values[i]),
{
}

} // verus!
