//! Reading a layout back from a D-Bus value.
use vstd::prelude::*;
use zbus::zvariant::{OwnedValue, Value};

use crate::layout::{layout_value, Layout, LayoutModel};
use crate::order::{
    are_entries_sortable, entries_sortable, is_sortable, lemma_entries_sortable,
};
use crate::properties::Properties;
use crate::value::{
    all_hold, ascending, dict_from_value, dict_into_entries, downcast_i32, downcast_value,
    downcast_values, entries_hold, entries_of, fd_free, fixed_order, is_dict, key_less, keys_of,
    lemma_key_less, lemma_plain_is_fixed, owned_bool, owned_holds, owned_type, peeled, plain, simple,
    sortable, string_from_value, structure_from_value, structure_into_fields, value_holds,
    value_into_owned, variant, variant_array, variant_dict, KeyModel, ValueError, ValueModel,
};

verus! {

/// The properties of a layout on their way back from the bus.
pub struct ItemPropsHelper(pub Properties);

/// The property name that a dictionary key stands for. A key that is no text stands for the empty
/// name.
pub open spec fn key_name(key: ValueModel) -> Seq<char> {
    match key {
        ValueModel::Str(s) => s,
        _ => Seq::empty(),
    }
}

/// The property names that the keys of a list of entries stand for.
pub open spec fn names_of(entries: Seq<(ValueModel, ValueModel)>) -> Seq<Seq<char>> {
    Seq::new(entries.len(), |i: int| key_name(entries[i].0))
}

/// The properties with these names and these values, one after the other. Where a name comes
/// twice, the later value stays.
pub open spec fn collected(names: Seq<Seq<char>>, values: Seq<ValueModel>) -> Map<
    Seq<char>,
    ValueModel,
>
    decreases names.len(),
{
    if names.len() == 0 {
        Map::empty()
    } else {
        collected(names.drop_last(), values.drop_last()).insert(names.last(), values.last())
    }
}

/// Whether a property got its value from this value of a dictionary: it has the same content, or
/// it is `false` because a file descriptor in the value could not be duplicated. (Of a value with
/// several file descriptors as keys nothing is known.)
pub open spec fn got_from(got: ValueModel, value: ValueModel) -> bool {
    fixed_order(value) ==> got == value || (!fd_free(value) && got == ValueModel::Bool(false))
}

/// Whether these are the values that were read from a list of entries.
pub open spec fn values_of(
    entries: Seq<(ValueModel, ValueModel)>,
    values: Seq<ValueModel>,
) -> bool {
    &&& values.len() == entries.len()
    &&& forall|i: int| 0 <= i < entries.len() ==> got_from(#[trigger] values[i], entries[i].1)
}

/// Whether the keys of a dictionary are texts.
pub open spec fn text_keys(dict: Map<KeyModel, ValueModel>) -> bool {
    forall|k: KeyModel| #[trigger] dict.contains_key(k) ==> k is Str
}

/// Whether the values of a dictionary are plain.
pub open spec fn plain_values(m: ValueModel) -> bool {
    match m {
        ValueModel::Dict(d) => forall|k: KeyModel| d.contains_key(k) ==> plain(#[trigger] d[k]),
        ValueModel::OddDict(s) => forall|i: int| 0 <= i < s.len() ==> plain((#[trigger] s[i]).1),
        _ => true,
    }
}

/// The entries of a dictionary by the texts of their keys.
pub open spec fn text_entries(dict: Map<KeyModel, ValueModel>) -> Map<Seq<char>, ValueModel> {
    Map::new(
        |name: Seq<char>| dict.contains_key(KeyModel::Str(name)),
        |name: Seq<char>| dict[KeyModel::Str(name)],
    )
}

/// Whether a dictionary is read as these properties: every entry once, in the order of the
/// dictionary.
pub open spec fn dict_reads(m: ValueModel, got: Map<Seq<char>, ValueModel>) -> bool {
    exists|entries: Seq<(ValueModel, ValueModel)>, values: Seq<ValueModel>|
        entries_of(m, entries) && #[trigger] values_of(entries, values) && got == collected(
            names_of(entries),
            values,
        )
}

/// What is collected under distinct names does not depend on the order.
proof fn lemma_collected(names: Seq<Seq<char>>, values: Seq<ValueModel>)
    requires
        names.no_duplicates(),
        values.len() == names.len(),
    ensures
        forall|name: Seq<char>| #[trigger]
            collected(names, values).contains_key(name) <==> names.contains(name),
        forall|i: int|
            0 <= i < names.len() ==> collected(names, values)[#[trigger] names[i]] == values[i],
    decreases names.len(),
{
    if names.len() > 0 {
        let last = names.last();
        let init = names.drop_last();
        let init_values = values.drop_last();
        lemma_collected(init, init_values);
        assert forall|name: Seq<char>| #[trigger]
            collected(names, values).contains_key(name) <==> names.contains(name) by {
            if names.contains(name) {
                let i = choose|i: int| 0 <= i < names.len() && names[i] == name;
                if i < init.len() {
                    assert(init[i] == name);
                    assert(collected(init, init_values).contains_key(name));
                }
            }
            if collected(names, values).contains_key(name) {
                if name == last {
                    assert(names[names.len() - 1] == name);
                } else {
                    assert(collected(init, init_values).contains_key(name));
                    let i = choose|i: int| 0 <= i < init.len() && init[i] == name;
                    assert(names[i] == name);
                }
            }
        }
        assert forall|i: int| 0 <= i < names.len() implies collected(names, values)[
        #[trigger] names[i]] == values[i] by {
            if i < init.len() {
                assert(init[i] == names[i]);
                assert(names[i] != last);
            }
        }
    }
}

/// A dictionary with texts as its keys is read as properties with just these names, each with the
/// value of its entry, or `false` for a value whose file descriptor could not be duplicated.
pub proof fn text_dict_reads(dict: Map<KeyModel, ValueModel>, got: Map<Seq<char>, ValueModel>)
    requires
        text_keys(dict),
        dict_reads(ValueModel::Dict(dict), got),
    ensures
        got.dom() == text_entries(dict).dom(),
        forall|name: Seq<char>| #[trigger]
            got.contains_key(name) ==> got_from(got[name], dict[KeyModel::Str(name)]),
        forall|name: Seq<char>| #[trigger]
            got.contains_key(name) && fixed_order(dict[KeyModel::Str(name)]) ==> got[name]
                == dict[KeyModel::Str(name)] || (got[name] == ValueModel::Bool(false) && !fd_free(
                dict[KeyModel::Str(name)],
            )),
{
    let m = ValueModel::Dict(dict);
    let (entries, values) = choose|
        entries: Seq<(ValueModel, ValueModel)>,
        values: Seq<ValueModel>,
    |
        entries_of(m, entries) && #[trigger] values_of(entries, values) && got == collected(
            names_of(entries),
            values,
        );
    let keys = keys_of(entries);
    let names = names_of(entries);
    assert forall|i: int| 0 <= i < entries.len() implies #[trigger] keys[i] == KeyModel::Str(
        names[i],
    ) by {
        assert(keys.contains(keys[i]));
        assert(dict.contains_key(keys[i]));
        assert(simple(entries[i].0));
    }
    assert forall|i: int, j: int| 0 <= i < j < names.len() implies names[i] != names[j] by {
        assert(key_less(keys[i], keys[j]));
        lemma_key_less(keys[i], keys[j]);
    }
    lemma_collected(names, values);
    assert forall|name: Seq<char>| #[trigger]
        got.dom().contains(name) == text_entries(dict).dom().contains(name) by {
        assert(got.contains_key(name) == names.contains(name));
        if names.contains(name) {
            let i = choose|i: int| 0 <= i < names.len() && names[i] == name;
            assert(keys[i] == KeyModel::Str(name));
            assert(keys.contains(KeyModel::Str(name)));
        }
        if dict.contains_key(KeyModel::Str(name)) {
            let i = choose|i: int| 0 <= i < keys.len() && keys[i] == KeyModel::Str(name);
            assert(names[i] == name);
        }
    }
    assert(got.dom() =~= text_entries(dict).dom());
    assert forall|name: Seq<char>| #[trigger] got.contains_key(name) implies got_from(
        got[name],
        dict[KeyModel::Str(name)],
    ) by {
        let i = choose|i: int| 0 <= i < names.len() && names[i] == name;
        assert(got[names[i]] == values[i]);
        assert(keys[i] == KeyModel::Str(name));
        assert(got_from(values[i], entries[i].1));
    }
}

/// A dictionary with texts as its keys and plain values is read as just its entries.
pub proof fn plain_dict_reads(dict: Map<KeyModel, ValueModel>, got: Map<Seq<char>, ValueModel>)
    requires
        text_keys(dict),
        plain_values(ValueModel::Dict(dict)),
        dict_reads(ValueModel::Dict(dict), got),
    ensures
        got == text_entries(dict),
{
    text_dict_reads(dict, got);
    assert forall|name: Seq<char>| #[trigger] got.contains_key(name) implies got[name]
        == text_entries(dict)[name] by {
        assert(text_entries(dict).dom().contains(name));
        assert(plain(dict[KeyModel::Str(name)]));
        lemma_plain_is_fixed(dict[KeyModel::Str(name)]);
    }
    assert(got =~= text_entries(dict));
}

/// Keys that are no texts all stand for the empty name: of a dictionary with such keys the value
/// of the last key stays.
pub proof fn last_key_stays(
    dict: Map<KeyModel, ValueModel>,
    last: KeyModel,
    got: Map<Seq<char>, ValueModel>,
)
    requires
        forall|k: KeyModel| #[trigger] dict.contains_key(k) ==> k !is Str,
        dict.contains_key(last),
        forall|k: KeyModel| #[trigger] dict.contains_key(k) && k != last ==> key_less(k, last),
        dict_reads(ValueModel::Dict(dict), got),
    ensures
        got.dom() == set![Seq::<char>::empty()],
        got_from(got[Seq::<char>::empty()], dict[last]),
{
    let m = ValueModel::Dict(dict);
    let (entries, values) = choose|
        entries: Seq<(ValueModel, ValueModel)>,
        values: Seq<ValueModel>,
    |
        entries_of(m, entries) && #[trigger] values_of(entries, values) && got == collected(
            names_of(entries),
            values,
        );
    let keys = keys_of(entries);
    let names = names_of(entries);
    let n = keys.len() - 1;
    assert forall|i: int| 0 <= i < entries.len() implies #[trigger] names[i] == Seq::<
        char,
    >::empty() by {
        assert(simple(entries[i].0));
        assert(keys.contains(keys[i]));
        assert(dict.contains_key(keys[i]));
    }
    let at = choose|i: int| 0 <= i < keys.len() && keys[i] == last;
    if at < n {
        assert(keys.contains(keys[n]));
        assert(dict.contains_key(keys[n]));
        assert(key_less(keys[at], keys[n]));
        lemma_key_less(keys[at], keys[n]);
    }
    lemma_collected_empty(names, values);
    assert(got_from(values[n], entries[n].1));
    assert(got.dom() =~= set![Seq::<char>::empty()]);
}

/// What is collected under the empty name alone is the last value.
proof fn lemma_collected_empty(names: Seq<Seq<char>>, values: Seq<ValueModel>)
    requires
        names.len() > 0,
        values.len() == names.len(),
        forall|i: int| 0 <= i < names.len() ==> #[trigger] names[i] == Seq::<char>::empty(),
    ensures
        forall|name: Seq<char>| #[trigger]
            collected(names, values).contains_key(name) <==> name == Seq::<char>::empty(),
        collected(names, values)[Seq::<char>::empty()] == values.last(),
    decreases names.len(),
{
    let init = names.drop_last();
    assert(names[names.len() - 1] == Seq::<char>::empty());
    if init.len() > 0 {
        assert forall|i: int| 0 <= i < init.len() implies #[trigger] init[i] == Seq::<
            char,
        >::empty() by {
            assert(init[i] == names[i]);
        }
        lemma_collected_empty(init, values.drop_last());
    } else {
        assert(collected(init, values.drop_last()) == Map::<Seq<char>, ValueModel>::empty());
    }
}

/// Ascending keys are determined by what they are.
proof fn lemma_ascending_is_unique(a: Seq<KeyModel>, b: Seq<KeyModel>)
    requires
        ascending(a),
        ascending(b),
        forall|k: KeyModel| #[trigger] a.contains(k) <==> b.contains(k),
    ensures
        a == b,
    decreases a.len(),
{
    if a.len() == 0 {
        if b.len() > 0 {
            assert(b.contains(b[0]));
            assert(a.contains(b[0]));
        }
        assert(a =~= b);
    } else {
        assert(a.contains(a.last()));
        assert(b.contains(a.last()));
        assert(b.contains(b.last()));
        assert(a.contains(b.last()));
        let i = choose|i: int| 0 <= i < a.len() && a[i] == b.last();
        let j = choose|j: int| 0 <= j < b.len() && b[j] == a.last();
        lemma_key_less(a.last(), b.last());
        if i < a.len() - 1 {
            assert(key_less(a[i], a[a.len() - 1]));
        }
        if j < b.len() - 1 {
            assert(key_less(b[j], b[b.len() - 1]));
        }
        assert(a.last() == b.last());
        let x = a.drop_last();
        let y = b.drop_last();
        assert forall|k: KeyModel| #[trigger] x.contains(k) <==> y.contains(k) by {
            if x.contains(k) {
                let p = choose|p: int| 0 <= p < x.len() && x[p] == k;
                assert(a[p] == k);
                assert(key_less(a[p], a[a.len() - 1]));
                lemma_key_less(k, k);
                assert(a.contains(k));
                let q = choose|q: int| 0 <= q < b.len() && b[q] == k;
                assert(y[q] == k);
            }
            if y.contains(k) {
                let p = choose|p: int| 0 <= p < y.len() && y[p] == k;
                assert(b[p] == k);
                assert(key_less(b[p], b[b.len() - 1]));
                lemma_key_less(k, k);
                assert(b.contains(k));
                assert(a.contains(k));
                let q = choose|q: int| 0 <= q < a.len() && a[q] == k;
                assert(x[q] == k);
            }
        }
        lemma_ascending_is_unique(x, y);
        assert(a =~= x.push(a.last()));
        assert(b =~= y.push(b.last()));
    }
}

/// A dictionary hands its entries out in one order only.
proof fn lemma_one_order(
    m: ValueModel,
    a: Seq<(ValueModel, ValueModel)>,
    b: Seq<(ValueModel, ValueModel)>,
)
    requires
        entries_of(m, a),
        entries_of(m, b),
    ensures
        a == b,
{
    if let ValueModel::Dict(d) = m {
        let ka = keys_of(a);
        let kb = keys_of(b);
        assert forall|k: KeyModel| #[trigger] ka.contains(k) <==> kb.contains(k) by {
            assert(d.contains_key(k) <==> ka.contains(k));
            assert(d.contains_key(k) <==> kb.contains(k));
        }
        lemma_ascending_is_unique(ka, kb);
        assert(ka.len() == a.len() && kb.len() == b.len());
        assert forall|i: int| 0 <= i < a.len() implies a[i] == b[i] by {
            assert(simple(a[i].0) && simple(b[i].0));
            assert(ka[i] == kb[i]);
        }
        assert(a =~= b);
    }
}

/// The same dictionary with plain values is always read as the same properties.
pub proof fn plain_values_read_alike(
    m: ValueModel,
    a: Map<Seq<char>, ValueModel>,
    b: Map<Seq<char>, ValueModel>,
)
    requires
        plain_values(m),
        dict_reads(m, a),
        dict_reads(m, b),
    ensures
        a == b,
{
    let (ea, va) = choose|entries: Seq<(ValueModel, ValueModel)>, values: Seq<ValueModel>|
        entries_of(m, entries) && #[trigger] values_of(entries, values) && a == collected(
            names_of(entries),
            values,
        );
    let (eb, vb) = choose|entries: Seq<(ValueModel, ValueModel)>, values: Seq<ValueModel>|
        entries_of(m, entries) && #[trigger] values_of(entries, values) && b == collected(
            names_of(entries),
            values,
        );
    lemma_one_order(m, ea, eb);
    assert forall|i: int| 0 <= i < va.len() implies va[i] == vb[i] by {
        if let ValueModel::Dict(d) = m {
            assert(keys_of(ea).contains(keys_of(ea)[i]));
            assert(plain(d[keys_of(ea)[i]]));
        }
        assert(plain(ea[i].1));
        lemma_plain_is_fixed(ea[i].1);
        assert(got_from(va[i], ea[i].1));
        assert(got_from(vb[i], eb[i].1));
    }
    assert(va =~= vb);
}

/// One entry of a dictionary as a property, from what reading its key as a text and its value as
/// an owned value gave. Without a text the name is empty, without an owned value it is `false`.
pub fn read_entry(key: Option<String>, value: Option<OwnedValue>) -> (res: (String, OwnedValue))
    ensures
        res.0@ == match key {
            Some(name) => name@,
            None => Seq::empty(),
        },
        owned_holds(res.1) == match value {
            Some(v) => owned_holds(v),
            None => ValueModel::Bool(false),
        },
{
    let name = match key {
        Some(name) => name,
        None => String::new(),
    };
    let value = match value {
        Some(v) => v,
        None => owned_bool(false),
    };
    (name, value)
}

impl ItemPropsHelper {
    /// Reads the properties of an item from a dictionary, or gives `None` where the dictionary
    /// holds a value that cannot be sorted.
    pub fn checked_try_from(value: Value<'static>) -> (res: Option<
        Result<ItemPropsHelper, ValueError>,
    >)
        ensures
            res is None <==> !entries_sortable(value_holds(value)),
            res matches Some(Ok(props)) ==> is_dict(value_holds(value)) && dict_reads(
                value_holds(value),
                props.0@,
            ),
            res matches Some(Err(e)) ==> !is_dict(value_holds(value)) && e
                == ValueError::IncorrectType,
    {
        if are_entries_sortable(&value) {
            Some(ItemPropsHelper::try_from(value))
        } else {
            None
        }
    }

    /// Reads the properties of an item from a dictionary whose values can be sorted.
    pub fn try_from(value: Value<'static>) -> (res: Result<ItemPropsHelper, ValueError>)
        requires
            entries_sortable(value_holds(value)),
        ensures
            res is Ok <==> is_dict(value_holds(value)),
            res matches Err(e) ==> e == ValueError::IncorrectType,
            res matches Ok(props) ==> dict_reads(value_holds(value), props.0@),
    {
        let ghost m = value_holds(value);
        let dict = match dict_from_value(value) {
            Ok(dict) => dict,
            Err(_) => return Err(ValueError::IncorrectType),
        };
        let entries = dict_into_entries(dict);
        let ghost all = entries@;
        let ghost content = entries_hold(all);
        proof {
            lemma_entries_sortable(m, content);
        }
        let mut map = Properties::new();
        let ghost mut values: Seq<ValueModel> = Seq::empty();
        for entry in iter: entries
            invariant
                iter.seq() == all,
                values.len() == iter.index(),
                content == entries_hold(all),
                forall|i: int| 0 <= i < content.len() ==> sortable((#[trigger] content[i]).1),
                forall|i: int|
                    0 <= i < values.len() ==> got_from(#[trigger] values[i], content[i].1),
                map@ == collected(names_of(content).take(values.len() as int), values),
        {
            let ghost n = values.len() as int;
            let (key, value) = entry;
            proof {
                assert((key, value) == all[n]);
                assert(content[n] == (value_holds(key), value_holds(value)));
            }
            let name = match string_from_value(key) {
                Ok(name) => Some(name),
                Err(_) => None,
            };
            let owned = match value_into_owned(value) {
                Ok(owned) => Some(owned),
                Err(_) => None,
            };
            let (name, owned) = read_entry(name, owned);
            let ghost got = owned_holds(owned);
            assert(name@ == names_of(content)[n]);
            map.insert(name, owned);
            proof {
                let names = names_of(content);
                let before = values;
                values = values.push(got);
                assert(got_from(got, content[n].1));
                assert(names.take(n + 1).drop_last() =~= names.take(n));
                assert(values.drop_last() =~= before);
            }
        }
        proof {
            let names = names_of(content);
            assert(names.take(names.len() as int) =~= names);
            assert(values_of(content, values));
        }
        Ok(ItemPropsHelper(map))
    }
}

/// Whether a value is a structure that ends before a field that reading it as a layout comes to.
/// The number comes first, then the properties, then the children; reading stops at the first
/// that has the wrong type.
pub open spec fn ends_early(m: ValueModel) -> bool {
    m matches ValueModel::Structure(fields) && {
        ||| fields.len() == 0
        ||| fields.len() == 1 && peeled(fields[0]) is I32
        ||| fields.len() == 2 && peeled(fields[0]) is I32 && is_dict(peeled(fields[1]))
    }
}

/// Whether reading a value as a layout comes to properties that hold a value that cannot be sorted.
pub open spec fn has_unsortable(m: ValueModel) -> bool {
    m matches ValueModel::Structure(fields) && {
        &&& fields.len() >= 2
        &&& peeled(fields[0]) is I32
        &&& !entries_sortable(peeled(fields[1]))
    }
}

/// Whether a value can be read as a layout.
pub open spec fn is_layout(m: ValueModel) -> bool {
    m matches ValueModel::Structure(fields) && {
        &&& fields.len() >= 3
        &&& peeled(fields[0]) is I32
        &&& is_dict(peeled(fields[1]))
        &&& peeled(fields[2]) is Array
    }
}

/// Whether a value is read as this layout.
pub open spec fn layout_reads(m: ValueModel, got: LayoutModel) -> bool {
    let fields = m->Structure_0;
    &&& is_layout(m)
    &&& peeled(fields[0]) == ValueModel::I32(got.id)
    &&& dict_reads(peeled(fields[1]), got.properties)
    &&& got.children == peeled(fields[2])->Array_0.map_values(|c: ValueModel| peeled(c))
}

impl Layout {
    /// Reads a layout from a value, or gives `None` where the value is a structure that ends
    /// early or comes to properties that cannot be sorted.
    pub fn checked_try_from(value: Value<'static>) -> (res: Option<Result<Layout, ValueError>>)
        ensures
            res is None <==> ends_early(value_holds(value)) || has_unsortable(value_holds(value)),
            res matches Some(Ok(layout)) ==> layout_reads(value_holds(value), layout@),
            res matches Some(Err(e)) ==> !is_layout(value_holds(value)) && e
                == ValueError::IncorrectType,
    {
        let ghost m = value_holds(value);
        let fields = match structure_from_value(value) {
            Ok(structure) => structure_into_fields(structure),
            Err(_) => return Some(Err(ValueError::IncorrectType)),
        };
        let mut fields = fields;
        let ghost all = fields@;
        assert(all_hold(all) == m->Structure_0);
        assert(forall|i: int|
            0 <= i < all.len() ==> #[trigger] m->Structure_0[i] == value_holds(all[i]));
        if fields.len() == 0 {
            return None;
        }
        let id = match downcast_i32(fields.remove(0)) {
            Ok(id) => id,
            Err(_) => return Some(Err(ValueError::IncorrectType)),
        };
        if fields.len() == 0 {
            return None;
        }
        let properties = match downcast_value(fields.remove(0)) {
            Ok(inner) => match ItemPropsHelper::checked_try_from(inner) {
                Some(Ok(props)) => props.0,
                Some(Err(e)) => return Some(Err(e)),
                None => return None,
            },
            Err(_) => return Some(Err(ValueError::IncorrectType)),
        };
        if fields.len() == 0 {
            return None;
        }
        let children = match downcast_values(fields.remove(0)) {
            Ok(children) => children,
            Err(_) => return Some(Err(ValueError::IncorrectType)),
        };
        Some(Ok(Layout { id, properties, children }))
    }

    /// Reads a layout from a value that does not end early and whose properties can be sorted.
    pub fn try_from(value: Value<'static>) -> (res: Result<Layout, ValueError>)
        requires
            !ends_early(value_holds(value)),
            !has_unsortable(value_holds(value)),
        ensures
            res is Ok <==> is_layout(value_holds(value)),
            res matches Ok(layout) ==> layout_reads(value_holds(value), layout@),
            res matches Err(e) ==> e == ValueError::IncorrectType,
    {
        Layout::checked_try_from(value).unwrap()
    }

    /// The layout as an owned D-Bus value, if its dictionaries can be sorted and if the system lets
    /// the file descriptors in it, if there are any, be duplicated.
    pub fn try_into_owned_value(self) -> (res: Result<OwnedValue, ValueError>)
        ensures
            !sortable(layout_value(self@)) <==> res == Err::<OwnedValue, ValueError>(
                ValueError::Unsortable,
            ),
            res is Err ==> res == Err::<OwnedValue, ValueError>(ValueError::Unsortable) || (res
                == Err::<OwnedValue, ValueError>(ValueError::FileDescriptor) && !fd_free(
                layout_value(self@),
            )),
            res matches Ok(v) ==> owned_type(v) == "(ia{sv}av)"@,
            res matches Ok(v) ==> fixed_order(layout_value(self@)) ==> owned_holds(v)
                == layout_value(self@),
    {
        let value = self.into_value();
        if !is_sortable(&value) {
            return Err(ValueError::Unsortable);
        }
        match value_into_owned(value) {
            Ok(v) => Ok(v),
            Err(_) => Err(ValueError::FileDescriptor),
        }
    }

    /// The layout as an owned D-Bus value. A layout should hold no file descriptors.
    pub fn into_owned_value(self) -> (res: OwnedValue)
        requires
            plain(layout_value(self@)),
        ensures
            owned_type(res) == "(ia{sv}av)"@,
            owned_holds(res) == layout_value(self@),
    {
        proof {
            lemma_plain_is_fixed(layout_value(self@));
        }
        self.try_into_owned_value().unwrap()
    }
}

/// The value of a layout can be read as a layout, if its properties can be sorted.
pub proof fn layout_value_is_layout(layout: LayoutModel)
    ensures
        is_layout(layout_value(layout)),
        !ends_early(layout_value(layout)),
        has_unsortable(layout_value(layout)) <==> exists|name: Seq<char>|
            layout.properties.contains_key(name) && !sortable(#[trigger] layout.properties[name]),
{
    let fields = layout_value(layout)->Structure_0;
    assert(fields.len() == 3);
    assert(fields[0] is I32 && fields[1] is Dict && fields[2] is Array);
    let dict = variant_dict(layout.properties);
    assert(fields[1] == ValueModel::Dict(dict));
    assert(peeled(fields[0]) == fields[0] && peeled(fields[1]) == fields[1]);
    if entries_sortable(fields[1]) {
        assert forall|name: Seq<char>| layout.properties.contains_key(name) implies sortable(
            #[trigger] layout.properties[name],
        ) by {
            let key = KeyModel::Str(name);
            assert(fields[1]->Dict_0.contains_key(key));
            assert(fields[1]->Dict_0[key] == variant(layout.properties[name]));
            assert(sortable(fields[1]->Dict_0[key]));
            assert(sortable(variant(layout.properties[name])));
        }
    }
    if !entries_sortable(fields[1]) {
        let k = choose|k: KeyModel| dict.contains_key(k) && !sortable(#[trigger] dict[k]);
        assert(layout.properties.contains_key(k->Str_0));
        assert(dict[k] == variant(layout.properties[k->Str_0]));
        assert(!sortable(layout.properties[k->Str_0]));
    }
}

/// A layout that was made a value and read back has its number, its children and the names of its
/// properties again. Each property has its value in one more variant, or is `false` if a file
/// descriptor in the value could not be duplicated.
pub proof fn layout_reads_back(layout: LayoutModel, got: LayoutModel)
    requires
        layout_reads(layout_value(layout), got),
    ensures
        got.id == layout.id,
        got.children == layout.children,
        got.properties.dom() == layout.properties.dom(),
        forall|name: Seq<char>| #[trigger]
            layout.properties.contains_key(name) ==> got_from(
                got.properties[name],
                variant(layout.properties[name]),
            ),
{
    let fields = layout_value(layout)->Structure_0;
    assert(fields[0] == ValueModel::I32(layout.id));
    assert(fields[1] == ValueModel::Dict(variant_dict(layout.properties)));
    assert(fields[2] == variant_array(layout.children));
    let dict = variant_dict(layout.properties);
    text_dict_reads(dict, got.properties);
    assert(got.properties.dom() =~= layout.properties.dom());
    assert forall|name: Seq<char>| #[trigger]
        layout.properties.contains_key(name) implies got_from(
        got.properties[name],
        variant(layout.properties[name]),
    ) by {
        assert(layout.properties.dom().contains(name));
        assert(got.properties.contains_key(name));
    }
    assert(got.children =~= layout.children);
}

/// A layout whose properties are plain has all of them again when it is read back, each value in
/// one more variant.
pub proof fn plain_layout_reads_back(layout: LayoutModel, got: LayoutModel)
    requires
        layout_reads(layout_value(layout), got),
        forall|name: Seq<char>|
            layout.properties.contains_key(name) ==> plain(#[trigger] layout.properties[name]),
    ensures
        got.properties == layout.properties.map_values(|m: ValueModel| variant(m)),
{
    layout_reads_back(layout, got);
    assert forall|name: Seq<char>| #[trigger]
        layout.properties.contains_key(name) implies got.properties[name] == variant(
        layout.properties[name],
    ) by {
        assert(plain(layout.properties[name]));
        lemma_plain_is_fixed(layout.properties[name]);
    }
    assert(got.properties =~= layout.properties.map_values(|m: ValueModel| variant(m)));
}

/// A value that was read into a property is the value itself if it is plain. With a file descriptor
/// in it, it is the value itself or `false`.
pub proof fn values_are_kept_or_false(got: ValueModel, value: ValueModel)
    requires
        got_from(got, value),
    ensures
        plain(value) ==> got == value,
        fixed_order(value) ==> got == value || got == ValueModel::Bool(false),
        fd_free(value) && fixed_order(value) ==> got == value,
{
    if plain(value) {
        lemma_plain_is_fixed(value);
    }
}

/// A dictionary whose keys are no texts, and not all simple, is read as one property without a
/// name: the value of its last entry.
pub proof fn last_entry_stays(
    entries: Seq<(ValueModel, ValueModel)>,
    got: Map<Seq<char>, ValueModel>,
)
    requires
        entries.len() > 0,
        forall|i: int| 0 <= i < entries.len() ==> (#[trigger] entries[i]).0 !is Str,
        dict_reads(ValueModel::OddDict(entries), got),
    ensures
        got.dom() == set![Seq::<char>::empty()],
        plain(entries.last().1) ==> got[Seq::<char>::empty()] == entries.last().1,
        fixed_order(entries.last().1) ==> got[Seq::<char>::empty()] == entries.last().1
            || got[Seq::<char>::empty()] == ValueModel::Bool(false),
{
    let m = ValueModel::OddDict(entries);
    let (listed, values) = choose|
        listed: Seq<(ValueModel, ValueModel)>,
        values: Seq<ValueModel>,
    |
        entries_of(m, listed) && #[trigger] values_of(listed, values) && got == collected(
            names_of(listed),
            values,
        );
    let names = names_of(listed);
    assert forall|i: int| 0 <= i < names.len() implies #[trigger] names[i] == Seq::<
        char,
    >::empty() by {
        assert(entries[i].0 !is Str);
    }
    lemma_collected_empty(names, values);
    assert(got_from(values[values.len() - 1], listed[values.len() - 1].1));
    values_are_kept_or_false(values.last(), entries.last().1);
    assert(got.dom() =~= set![Seq::<char>::empty()]);
}

/// A value is read as a layout exactly if it is a structure that begins with a number, a
/// dictionary and a list, each with or without a variant around it.
pub proof fn what_can_be_read(
    number: ValueModel,
    properties: ValueModel,
    children: ValueModel,
    more: Seq<ValueModel>,
)
    requires
        number !is Variant,
        properties !is Variant,
        children !is Variant,
    ensures
        ({
            let bare = ValueModel::Structure(seq![number, properties, children] + more);
            let wrapped = ValueModel::Structure(
                seq![variant(number), variant(properties), variant(children)] + more,
            );
            let readable = number is I32 && (properties is Dict || properties is OddDict)
                && children is Array;
            &&& is_layout(bare) == readable
            &&& is_layout(wrapped) == readable
            &&& !ends_early(bare) && !ends_early(wrapped)
        }),
        number !is Structure ==> !is_layout(number) && !ends_early(number),
{
    let bare = seq![number, properties, children] + more;
    let wrapped = seq![variant(number), variant(properties), variant(children)] + more;
    assert(bare[0] == number && bare[1] == properties && bare[2] == children);
    assert(wrapped[0] == variant(number) && wrapped[1] == variant(properties));
    assert(wrapped[2] == variant(children));
}

/// A structure ends early exactly if it ends where all that was read so far was right: before the
/// number, before the properties, or before the children.
pub proof fn what_ends_early(number: ValueModel, properties: ValueModel)
    requires
        number !is Variant,
        properties !is Variant,
    ensures
        ends_early(ValueModel::Structure(Seq::empty())),
        ends_early(ValueModel::Structure(seq![number])) == (number is I32),
        ends_early(ValueModel::Structure(seq![number, properties])) == (number is I32 && (
        properties is Dict || properties is OddDict)),
        !is_layout(ValueModel::Structure(seq![number, properties])),
        !is_layout(ValueModel::Structure(seq![number])),
{
}

/// What is read as a layout has the number, the entries and the elements of the value, one variant
/// layer aside.
pub proof fn what_is_read(fields: Seq<ValueModel>, got: LayoutModel, i: int)
    requires
        layout_reads(ValueModel::Structure(fields), got),
    ensures
        fields.len() >= 3,
        fields[0] == ValueModel::I32(got.id) || fields[0] == ValueModel::Variant(
            Box::new(ValueModel::I32(got.id)),
        ),
        fields[1] !is Variant ==> dict_reads(fields[1], got.properties),
        fields[2] matches ValueModel::Array(list) ==> got.children.len() == list.len() && (0 <= i
            < list.len() ==> got.children[i] == list[i] || list[i] == ValueModel::Variant(
            Box::new(got.children[i]),
        )),
        fields[2] matches ValueModel::Array(list) ==> 0 <= i < list.len() && list[i] is Variant
            ==> list[i] == ValueModel::Variant(Box::new(got.children[i])),
{
}

} // verus!
