//! D-Bus values.
//!
//! The bus speaks in `zvariant` values, which are opaque to the verifier. This module gives them
//! a mathematical content, [`ValueModel`], and holds every call into `zvariant` that the library
//! makes. Each function below states, in terms of that content, what the call it wraps does.
use std::collections::HashMap;
use vstd::prelude::*;
use zbus::zvariant::{Dict, ObjectPath, OwnedValue, Structure, StructureBuilder, Value};

verus! {

#[verifier::external_type_specification]
#[verifier::external_body]
pub struct ExValue<'a>(Value<'a>);

#[verifier::external_type_specification]
#[verifier::external_body]
pub struct ExOwnedValue(OwnedValue);

#[verifier::external_type_specification]
#[verifier::external_body]
pub struct ExStructure<'a>(Structure<'a>);

#[verifier::external_type_specification]
#[verifier::external_body]
pub struct ExDict<'k, 'v>(Dict<'k, 'v>);

#[verifier::external_type_specification]
#[verifier::external_body]
pub struct ExObjectPath<'a>(ObjectPath<'a>);

#[verifier::external_type_specification]
#[verifier::external_body]
pub struct ExError(zbus::zvariant::Error);

/// The content of a D-Bus value.
///
/// `Variant` is a value inside a value (`Value::Value`), `Float` a floating point number by its
/// bits, and `Fd` a file descriptor, whose number the content leaves out. A dictionary whose keys
/// are all simple is a `Dict`. Any other is an `OddDict`, which lists keys and values in the order
/// in which the dictionary keeps them: on signatures and on containers `zvariant` has no total
/// order, so such a dictionary may even keep a key twice.
pub ghost enum ValueModel {
    Bool(bool),
    U8(u8),
    I16(i16),
    U16(u16),
    I32(i32),
    U32(u32),
    I64(i64),
    U64(u64),
    Float(u64),
    Str(Seq<char>),
    Signature(Seq<char>),
    ObjectPath(Seq<char>),
    Variant(Box<ValueModel>),
    Array(Seq<ValueModel>),
    Dict(Map<KeyModel, ValueModel>),
    OddDict(Seq<(ValueModel, ValueModel)>),
    Structure(Seq<ValueModel>),
    Fd,
}

/// A simple key of a D-Bus dictionary: a truth value, a number, a text or an object path.
pub ghost enum KeyModel {
    Bool(bool),
    U8(u8),
    I16(i16),
    U16(u16),
    I32(i32),
    U32(u32),
    I64(i64),
    U64(u64),
    Float(u64),
    Str(Seq<char>),
    ObjectPath(Seq<char>),
}

/// What a `zvariant::Value` holds.
pub uninterp spec fn value_holds(v: Value<'static>) -> ValueModel;

/// What a `zvariant::OwnedValue` holds.
pub uninterp spec fn owned_holds(v: OwnedValue) -> ValueModel;

/// The fields of a `zvariant::Structure`, in order.
pub uninterp spec fn structure_holds(s: Structure<'static>) -> Seq<ValueModel>;

/// What a `zvariant::Dict` holds: a `Dict` or an `OddDict`.
pub uninterp spec fn dict_holds(d: Dict<'static, 'static>) -> ValueModel;

/// The D-Bus type of a `zvariant::Value`, as the text of its signature.
pub uninterp spec fn value_type(v: Value<'static>) -> Seq<char>;

/// The D-Bus type of a `zvariant::OwnedValue`, as the text of its signature.
pub uninterp spec fn owned_type(v: OwnedValue) -> Seq<char>;

/// The D-Bus type of a `zvariant::Structure`, as the text of its signature.
pub uninterp spec fn structure_type(s: Structure<'static>) -> Seq<char>;

/// The text of a `zvariant::ObjectPath`.
pub uninterp spec fn path_text(p: ObjectPath<'static>) -> Seq<char>;

/// The simple key that a content makes, if it makes one.
pub open spec fn key_of(m: ValueModel) -> Option<KeyModel> {
    match m {
        ValueModel::Bool(b) => Some(KeyModel::Bool(b)),
        ValueModel::U8(n) => Some(KeyModel::U8(n)),
        ValueModel::I16(n) => Some(KeyModel::I16(n)),
        ValueModel::U16(n) => Some(KeyModel::U16(n)),
        ValueModel::I32(n) => Some(KeyModel::I32(n)),
        ValueModel::U32(n) => Some(KeyModel::U32(n)),
        ValueModel::I64(n) => Some(KeyModel::I64(n)),
        ValueModel::U64(n) => Some(KeyModel::U64(n)),
        ValueModel::Float(bits) => Some(KeyModel::Float(bits)),
        ValueModel::Str(s) => Some(KeyModel::Str(s)),
        ValueModel::ObjectPath(s) => Some(KeyModel::ObjectPath(s)),
        _ => None,
    }
}

/// Whether a content makes a simple key.
pub open spec fn simple(m: ValueModel) -> bool {
    key_of(m) is Some
}

/// Whether a value is a dictionary.
pub open spec fn is_dict(m: ValueModel) -> bool {
    m is Dict || m is OddDict
}

/// Whether one text comes before another: at the first place where they differ it has the smaller
/// character, or it ends there.
pub open spec fn text_less(a: Seq<char>, b: Seq<char>) -> bool
    decreases a.len(),
{
    if b.len() == 0 {
        false
    } else if a.len() == 0 {
        true
    } else if a[0] == b[0] {
        text_less(a.drop_first(), b.drop_first())
    } else {
        a[0] < b[0]
    }
}

/// The place of a floating point number with these bits in the total order of such numbers.
pub open spec fn float_place(bits: u64) -> int {
    if bits < 0x8000_0000_0000_0000 {
        bits as int
    } else {
        0x8000_0000_0000_0000 - bits - 1
    }
}

/// The place of a key's type among the types.
pub open spec fn key_place(k: KeyModel) -> int {
    match k {
        KeyModel::U8(_) => 0,
        KeyModel::Bool(_) => 1,
        KeyModel::I16(_) => 2,
        KeyModel::U16(_) => 3,
        KeyModel::I32(_) => 4,
        KeyModel::U32(_) => 5,
        KeyModel::I64(_) => 6,
        KeyModel::U64(_) => 7,
        KeyModel::Float(_) => 8,
        KeyModel::Str(_) => 9,
        KeyModel::ObjectPath(_) => 10,
    }
}

/// Whether one simple key comes before another.
pub open spec fn key_less(a: KeyModel, b: KeyModel) -> bool {
    match (a, b) {
        (KeyModel::U8(x), KeyModel::U8(y)) => x < y,
        (KeyModel::Bool(x), KeyModel::Bool(y)) => !x && y,
        (KeyModel::I16(x), KeyModel::I16(y)) => x < y,
        (KeyModel::U16(x), KeyModel::U16(y)) => x < y,
        (KeyModel::I32(x), KeyModel::I32(y)) => x < y,
        (KeyModel::U32(x), KeyModel::U32(y)) => x < y,
        (KeyModel::I64(x), KeyModel::I64(y)) => x < y,
        (KeyModel::U64(x), KeyModel::U64(y)) => x < y,
        (KeyModel::Float(x), KeyModel::Float(y)) => float_place(x) < float_place(y),
        (KeyModel::Str(x), KeyModel::Str(y)) => text_less(x, y),
        (KeyModel::ObjectPath(x), KeyModel::ObjectPath(y)) => text_less(x, y),
        _ => key_place(a) < key_place(b),
    }
}

/// Whether keys ascend.
pub open spec fn ascending(keys: Seq<KeyModel>) -> bool {
    forall|i: int, j: int|
        0 <= i < j < keys.len() ==> key_less(#[trigger] keys[i], #[trigger] keys[j])
}

/// The simple keys of a list of entries.
pub open spec fn keys_of(entries: Seq<(ValueModel, ValueModel)>) -> Seq<KeyModel> {
    Seq::new(entries.len(), |i: int| key_of(entries[i].0)->0)
}

/// Whether these are the entries of a dictionary, in the order in which it hands them out. Simple
/// keys ascend.
pub open spec fn entries_of(m: ValueModel, entries: Seq<(ValueModel, ValueModel)>) -> bool {
    match m {
        ValueModel::Dict(d) => {
            &&& forall|i: int| 0 <= i < entries.len() ==> simple((#[trigger] entries[i]).0)
            &&& ascending(keys_of(entries))
            &&& forall|k: KeyModel| #[trigger] d.contains_key(k) <==> keys_of(entries).contains(k)
            &&& forall|i: int|
                0 <= i < entries.len() ==> (#[trigger] entries[i]).1 == d[keys_of(entries)[i]]
        },
        ValueModel::OddDict(s) => entries == s,
        _ => false,
    }
}

/// Whether no file descriptor occurs in a value.
pub open spec fn fd_free(m: ValueModel) -> bool
    decreases m,
{
    match m {
        ValueModel::Fd => false,
        ValueModel::Variant(inner) => fd_free(*inner),
        ValueModel::Array(s) => forall|i: int| 0 <= i < s.len() ==> fd_free(#[trigger] s[i]),
        ValueModel::Structure(s) => forall|i: int| 0 <= i < s.len() ==> fd_free(#[trigger] s[i]),
        ValueModel::Dict(d) => forall|k: KeyModel| d.contains_key(k) ==> fd_free(#[trigger] d[k]),
        ValueModel::OddDict(s) => forall|i: int|
            0 <= i < s.len() ==> fd_free((#[trigger] s[i]).0) && fd_free(s[i].1),
        _ => true,
    }
}

/// Whether these keys, in a dictionary with so many entries, have a total order: a single key has
/// one, and so have simple keys and file descriptors.
pub open spec fn orderly(entries: Seq<(ValueModel, ValueModel)>) -> bool {
    entries.len() <= 1 || forall|i: int|
        0 <= i < entries.len() ==> simple((#[trigger] entries[i]).0) || entries[i].0 is Fd
}

/// Whether the keys of all dictionaries in a value have a total order, so that the dictionaries
/// can be sorted.
pub open spec fn sortable(m: ValueModel) -> bool
    decreases m,
{
    match m {
        ValueModel::Variant(inner) => sortable(*inner),
        ValueModel::Array(s) => forall|i: int| 0 <= i < s.len() ==> sortable(#[trigger] s[i]),
        ValueModel::Structure(s) => forall|i: int| 0 <= i < s.len() ==> sortable(#[trigger] s[i]),
        ValueModel::Dict(d) => forall|k: KeyModel| d.contains_key(k) ==> sortable(#[trigger] d[k]),
        ValueModel::OddDict(s) => orderly(s) && forall|i: int|
            0 <= i < s.len() ==> sortable((#[trigger] s[i]).0) && sortable(s[i].1),
        _ => true,
    }
}

/// Whether the order of all dictionaries in a value comes from its content: each has simple keys
/// or a single key. (The order of file descriptors comes from their numbers.)
pub open spec fn fixed_order(m: ValueModel) -> bool
    decreases m,
{
    match m {
        ValueModel::Variant(inner) => fixed_order(*inner),
        ValueModel::Array(s) => forall|i: int| 0 <= i < s.len() ==> fixed_order(#[trigger] s[i]),
        ValueModel::Structure(s) => forall|i: int|
            0 <= i < s.len() ==> fixed_order(#[trigger] s[i]),
        ValueModel::Dict(d) => forall|k: KeyModel|
            d.contains_key(k) ==> fixed_order(#[trigger] d[k]),
        ValueModel::OddDict(s) => {
            &&& s.len() <= 1 || forall|i: int| 0 <= i < s.len() ==> simple((#[trigger] s[i]).0)
            &&& forall|i: int|
                0 <= i < s.len() ==> fixed_order((#[trigger] s[i]).0) && fixed_order(s[i].1)
        },
        _ => true,
    }
}

/// Whether a value has no file descriptors and can be sorted.
pub open spec fn plain(m: ValueModel) -> bool {
    fd_free(m) && sortable(m)
}

/// A plain value has a fixed order.
pub proof fn lemma_plain_is_fixed(m: ValueModel)
    requires
        plain(m),
    ensures
        fixed_order(m),
    decreases m,
{
    match m {
        ValueModel::Variant(inner) => {
            lemma_plain_is_fixed(*inner);
        },
        ValueModel::Array(s) => {
            assert forall|i: int| 0 <= i < s.len() implies fixed_order(#[trigger] s[i]) by {
                lemma_plain_is_fixed(s[i]);
            }
        },
        ValueModel::Structure(s) => {
            assert forall|i: int| 0 <= i < s.len() implies fixed_order(#[trigger] s[i]) by {
                lemma_plain_is_fixed(s[i]);
            }
        },
        ValueModel::Dict(d) => {
            assert forall|k: KeyModel| d.contains_key(k) implies fixed_order(#[trigger] d[k]) by {
                lemma_plain_is_fixed(d[k]);
            }
        },
        ValueModel::OddDict(s) => {
            assert forall|i: int| 0 <= i < s.len() implies fixed_order((#[trigger] s[i]).0)
                && fixed_order(s[i].1) by {
                lemma_plain_is_fixed(s[i].0);
                lemma_plain_is_fixed(s[i].1);
            }
            if s.len() > 1 {
                assert forall|i: int| 0 <= i < s.len() implies simple((#[trigger] s[i]).0) by {
                    assert(fd_free(s[i].0));
                }
            }
        },
        _ => {},
    }
}

/// Of two texts not each comes before the other.
proof fn lemma_text_less(a: Seq<char>, b: Seq<char>)
    ensures
        !(text_less(a, b) && text_less(b, a)),
    decreases a.len(),
{
    if a.len() > 0 && b.len() > 0 && a[0] == b[0] {
        lemma_text_less(a.drop_first(), b.drop_first());
    }
}

/// Of two keys not each comes before the other.
pub proof fn lemma_key_less(a: KeyModel, b: KeyModel)
    ensures
        !(key_less(a, b) && key_less(b, a)),
{
    match (a, b) {
        (KeyModel::Str(x), KeyModel::Str(y)) => {
            lemma_text_less(x, y);
        },
        (KeyModel::ObjectPath(x), KeyModel::ObjectPath(y)) => {
            lemma_text_less(x, y);
        },
        _ => {},
    }
}

/// A value without the one `Variant` layer that it may have around it.
pub open spec fn peeled(m: ValueModel) -> ValueModel {
    match m {
        ValueModel::Variant(inner) => *inner,
        _ => m,
    }
}

/// A value inside a `Variant`.
pub open spec fn variant(m: ValueModel) -> ValueModel {
    ValueModel::Variant(Box::new(m))
}

/// The contents of a list of values.
pub open spec fn all_hold(values: Seq<Value<'static>>) -> Seq<ValueModel> {
    Seq::new(values.len(), |i: int| value_holds(values[i]))
}

/// The contents of a list of dictionary entries.
pub open spec fn entries_hold(entries: Seq<(Value<'static>, Value<'static>)>) -> Seq<
    (ValueModel, ValueModel),
> {
    Seq::new(entries.len(), |i: int| (value_holds(entries[i].0), value_holds(entries[i].1)))
}

/// The map that a list of named values makes. Where a name occurs twice, the later value stays.
pub open spec fn named_values(entries: Seq<(String, OwnedValue)>) -> Map<Seq<char>, ValueModel>
    decreases entries.len(),
{
    if entries.len() == 0 {
        Map::empty()
    } else {
        named_values(entries.drop_last()).insert(entries.last().0@, owned_holds(entries.last().1))
    }
}

/// The dictionary that a map from names to values makes on the bus: every value stands in a
/// `Variant`.
pub open spec fn variant_dict(m: Map<Seq<char>, ValueModel>) -> Map<KeyModel, ValueModel> {
    Map::new(
        |k: KeyModel| k is Str && m.contains_key(k->Str_0),
        |k: KeyModel| variant(m[k->Str_0]),
    )
}

/// The array that a list of values makes on the bus: every element stands in a `Variant`.
pub open spec fn variant_array(values: Seq<ValueModel>) -> ValueModel {
    ValueModel::Array(Seq::new(values.len(), |i: int| variant(values[i])))
}

/// The array of bytes with this content.
pub open spec fn byte_array(data: Seq<u8>) -> ValueModel {
    ValueModel::Array(Seq::new(data.len(), |i: int| ValueModel::U8(data[i])))
}

/// An icon on the bus: width, height and pixel data.
pub open spec fn pixmap_model(width: i32, height: i32, data: Seq<u8>) -> ValueModel {
    ValueModel::Structure(
        seq![ValueModel::I32(width), ValueModel::I32(height), byte_array(data)],
    )
}

/// Why a D-Bus value could not be read.
#[derive(Debug, Clone, Copy, PartialEq, Eq, Structural)]
pub enum ValueError {
    /// The value has another type than the one asked for.
    IncorrectType,
    /// A file descriptor in the value could not be duplicated.
    FileDescriptor,
    /// A dictionary in the value has keys without a total order.
    Unsortable,
}

/// `OwnedValue::try_from(Value::Str(..))`: the owned value of a text. The conversion fails only
/// for file descriptors, so it does not fail here.
#[verifier::external_body]
pub(crate) fn owned_str(text: &str) -> (res: OwnedValue)
    ensures
        owned_holds(res) == ValueModel::Str(text@),
{
    Value::Str(text.into()).try_into().unwrap()
}

/// `OwnedValue::from(bool)`.
#[verifier::external_body]
pub(crate) fn owned_bool(value: bool) -> (res: OwnedValue)
    ensures
        owned_holds(res) == ValueModel::Bool(value),
{
    OwnedValue::from(value)
}

/// `OwnedValue::from(i32)`.
#[verifier::external_body]
pub(crate) fn owned_i32(value: i32) -> (res: OwnedValue)
    ensures
        owned_holds(res) == ValueModel::I32(value),
{
    OwnedValue::from(value)
}

/// `StructureBuilder` with three fields: a number, a dictionary from texts to variants and an
/// array of variants. `add_field` puts an element of a dictionary or an array whose type is a
/// variant inside `Value::Value`; `build` fails only without fields, and makes the type of the
/// structure from the types of its fields.
#[verifier::external_body]
pub(crate) fn layout_structure(
    id: i32,
    properties: Vec<(String, OwnedValue)>,
    children: Vec<Value<'static>>,
) -> (res: Structure<'static>)
    ensures
        structure_holds(res) == seq![
            ValueModel::I32(id),
            ValueModel::Dict(variant_dict(named_values(properties@))),
            variant_array(all_hold(children@)),
        ],
        structure_type(res) == "(ia{sv}av)"@,
{
    let properties: HashMap<String, OwnedValue> = properties.into_iter().collect();
    StructureBuilder::new()
        .add_field(id)
        .add_field(properties)
        .add_field(children)
        .build()
        .unwrap()
}

/// `Structure::from` on a tuple of a text, a list of icons and two texts.
#[verifier::external_body]
pub(crate) fn tool_tip_structure(
    icon_name: String,
    icon_pixmap: Vec<(i32, i32, Vec<u8>)>,
    title: String,
    description: String,
) -> (res: Structure<'static>)
    ensures
        structure_holds(res) == seq![
            ValueModel::Str(icon_name@),
            ValueModel::Array(
                Seq::new(
                    icon_pixmap@.len(),
                    |i: int| pixmap_model(icon_pixmap[i].0, icon_pixmap[i].1, icon_pixmap[i].2@),
                ),
            ),
            ValueModel::Str(title@),
            ValueModel::Str(description@),
        ],
        structure_type(res) == "(sa(iiay)ss)"@,
{
    (icon_name, icon_pixmap, title, description).into()
}

/// `Value::from` on a tuple of two numbers and a list of bytes.
#[verifier::external_body]
pub(crate) fn pixmap_value(width: i32, height: i32, data: Vec<u8>) -> (res: Value<'static>)
    ensures
        value_holds(res) == pixmap_model(width, height, data@),
        value_type(res) == "(iiay)"@,
{
    Value::from((width, height, data))
}

/// `Value::from(Structure)`.
#[verifier::external_body]
pub(crate) fn value_from_structure(s: Structure<'static>) -> (res: Value<'static>)
    ensures
        value_holds(res) == ValueModel::Structure(structure_holds(s)),
        value_type(res) == structure_type(s),
{
    Value::from(s)
}

/// `Structure::try_from(Value)`: succeeds on a structure and on nothing else.
#[verifier::external_body]
pub(crate) fn structure_from_value(v: Value<'static>) -> (res: Result<
    Structure<'static>,
    zbus::zvariant::Error,
>)
    ensures
        res is Ok <==> value_holds(v) is Structure,
        res matches Ok(s) ==> structure_holds(s) == value_holds(v)->Structure_0,
{
    Structure::try_from(v)
}

/// `Structure::into_fields`.
#[verifier::external_body]
pub(crate) fn structure_into_fields(s: Structure<'static>) -> (res: Vec<Value<'static>>)
    ensures
        all_hold(res@) == structure_holds(s),
{
    s.into_fields()
}

/// `Value::downcast::<i32>`: takes one variant layer off and succeeds on an `i32` alone.
#[verifier::external_body]
pub(crate) fn downcast_i32(v: Value<'static>) -> (res: Result<i32, zbus::zvariant::Error>)
    ensures
        res is Ok <==> peeled(value_holds(v)) is I32,
        res matches Ok(i) ==> peeled(value_holds(v)) == ValueModel::I32(i),
{
    v.downcast()
}

/// `Value::downcast::<Vec<Value>>`: takes one variant layer off, succeeds on an array alone, and
/// takes one variant layer off each element.
#[verifier::external_body]
pub(crate) fn downcast_values(v: Value<'static>) -> (res: Result<
    Vec<Value<'static>>,
    zbus::zvariant::Error,
>)
    ensures
        res is Ok <==> peeled(value_holds(v)) is Array,
        res matches Ok(values) ==> all_hold(values@) == peeled(
            value_holds(v),
        )->Array_0.map_values(|m: ValueModel| peeled(m)),
{
    v.downcast()
}

/// `Value::downcast::<Value>`: takes one variant layer off and always succeeds.
#[verifier::external_body]
pub(crate) fn downcast_value(v: Value<'static>) -> (res: Result<
    Value<'static>,
    zbus::zvariant::Error,
>)
    ensures
        res is Ok,
        res matches Ok(inner) ==> value_holds(inner) == peeled(value_holds(v)),
{
    v.downcast()
}

/// `Dict::try_from(Value)`: succeeds on a dictionary and on nothing else.
#[verifier::external_body]
pub(crate) fn dict_from_value(v: Value<'static>) -> (res: Result<
    Dict<'static, 'static>,
    zbus::zvariant::Error,
>)
    ensures
        res is Ok <==> is_dict(value_holds(v)),
        res matches Ok(d) ==> dict_holds(d) == value_holds(v),
{
    Dict::try_from(v)
}

/// `Dict::into_iter`: hands every entry out once, in the order of the `BTreeMap` that the entries
/// stand in. That order ascends where the keys are simple: by type, and within a type by number or
/// character by character.
#[verifier::external_body]
pub(crate) fn dict_into_entries(d: Dict<'static, 'static>) -> (res: Vec<
    (Value<'static>, Value<'static>),
>)
    ensures
        entries_of(dict_holds(d), entries_hold(res@)),
{
    d.into_iter().collect()
}

/// `String::try_from(Value)`: succeeds on a text and on nothing else.
#[verifier::external_body]
pub(crate) fn string_from_value(v: Value<'static>) -> (res: Result<String, zbus::zvariant::Error>)
    ensures
        res is Ok <==> value_holds(v) is Str,
        res matches Ok(s) ==> value_holds(v) == ValueModel::Str(s@),
{
    String::try_from(v)
}

/// `Value::try_into_owned`: goes through the value and keeps its content and its type. It fails
/// only where a file descriptor has to be duplicated and the process has too many of them open.
///
/// Every dictionary is sorted anew, and the result of sorting by an order that is not total is not
/// specified: such a value must not be handed over. A file descriptor gets a new number, which
/// can change the order of a dictionary with several of them as keys: of such a value the content
/// is not stated.
#[verifier::external_body]
pub(crate) fn value_into_owned(v: Value<'static>) -> (res: Result<
    OwnedValue,
    zbus::zvariant::Error,
>)
    requires
        sortable(value_holds(v)),
    ensures
        fd_free(value_holds(v)) ==> res is Ok,
        res matches Ok(o) ==> fixed_order(value_holds(v)) ==> owned_holds(o) == value_holds(v),
        res matches Ok(o) ==> owned_type(o) == value_type(v),
{
    v.try_into_owned()
}

/// The parts of a D-Bus value.
pub enum ValueParts<'a> {
    /// A truth value, a number, a text or an object path.
    Simple,
    Signature,
    Fd,
    Variant(&'a Value<'static>),
    Array(&'a [Value<'static>]),
    Dict(Vec<(&'a Value<'static>, &'a Value<'static>)>),
    Structure(&'a [Value<'static>]),
}

/// The contents of a list of entries behind references.
pub open spec fn entry_refs_hold(
    entries: Seq<(&Value<'static>, &Value<'static>)>,
) -> Seq<(ValueModel, ValueModel)> {
    Seq::new(entries.len(), |i: int| (value_holds(*entries[i].0), value_holds(*entries[i].1)))
}

/// Whether these are the parts of a value with this content.
pub open spec fn parts_of(m: ValueModel, parts: ValueParts<'_>) -> bool {
    match parts {
        ValueParts::Simple => simple(m),
        ValueParts::Signature => m is Signature,
        ValueParts::Fd => m is Fd,
        ValueParts::Variant(v) => m == variant(value_holds(*v)),
        ValueParts::Array(s) => m == ValueModel::Array(all_hold(s@)),
        ValueParts::Dict(entries) => entries_of(m, entry_refs_hold(entries@)),
        ValueParts::Structure(s) => m == ValueModel::Structure(all_hold(s@)),
    }
}

/// The variants of `Value`, with `Array::inner`, `Dict::iter` and `Structure::fields` for what the
/// containers hold.
#[verifier::external_body]
pub(crate) fn value_parts<'a>(v: &'a Value<'static>) -> (res: ValueParts<'a>)
    ensures
        parts_of(value_holds(*v), res),
{
    match v {
        Value::Signature(_) => ValueParts::Signature,
        Value::Fd(_) => ValueParts::Fd,
        Value::Value(inner) => ValueParts::Variant(inner),
        Value::Array(array) => ValueParts::Array(array.inner()),
        Value::Dict(dict) => ValueParts::Dict(dict.iter().collect()),
        Value::Structure(structure) => ValueParts::Structure(structure.fields()),
        _ => ValueParts::Simple,
    }
}

/// `ObjectPath::from_static_str_unchecked`: keeps the text.
#[verifier::external_body]
pub(crate) fn object_path(path: &'static str) -> (res: ObjectPath<'static>)
    ensures
        path_text(res) == path@,
{
    ObjectPath::from_static_str_unchecked(path)
}

} // verus!
