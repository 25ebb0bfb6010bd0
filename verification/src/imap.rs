//! Trusted boundary around `indexmap::IndexMap`, the insertion-ordered map
//! that node attributes and replacer tables are stored in. Each map's
//! contents are named as a sequence of key/value entries in insertion
//! order; every wrapper states, over that sequence, what the crate's
//! documentation promises of the call.

use vstd::prelude::*;

use indexmap::IndexMap;

use crate::ir::{Expression, ExpressionV};

verus! {

#[verifier::external_type_specification]
#[verifier::external_body]
#[verifier::reject_recursive_types(K)]
#[verifier::reject_recursive_types(V)]
#[verifier::reject_recursive_types(S)]
pub struct ExIndexMap<K, V, S>(IndexMap<K, V, S>);

/// The entries of an attribute map, in insertion order.
pub uninterp spec fn expr_map_entries(m: IndexMap<String, Expression>) -> Seq<
    (Seq<char>, ExpressionV),
>;

/// The entries of an override table, in insertion order: each key is a
/// (function name, implementation name) pair, each value an attribute map
/// given by its own entries.
pub uninterp spec fn override_map_entries(
    m: IndexMap<(String, String), IndexMap<String, Expression>>,
) -> Seq<((Seq<char>, Seq<char>), Seq<(Seq<char>, ExpressionV)>)>;

/// The entries of a replacer table, in insertion order.
pub uninterp spec fn str_map_entries(m: IndexMap<String, String>) -> Seq<(Seq<char>, Seq<char>)>;

/// Whether some entry carries the given key.
pub open spec fn has_entry_key<K, V0>(s: Seq<(K, V0)>, key: K) -> bool {
    exists|i: int| 0 <= i < s.len() && s[i].0 == key
}

/// What inserting into an insertion-ordered map does to its entries: an
/// existing key keeps its place and takes the new value; a new key is
/// appended last.
pub open spec fn insert_entry<K, V0>(s: Seq<(K, V0)>, key: K, value: V0) -> Seq<(K, V0)>
    decreases s.len(),
{
    if s.len() == 0 {
        Seq::empty().push((key, value))
    } else if s[0].0 == key {
        seq![(key, value)] + s.subrange(1, s.len() as int)
    } else {
        seq![s[0]] + insert_entry(s.subrange(1, s.len() as int), key, value)
    }
}

/// Relies on `IndexMap::new`: the new map is empty.
#[verifier::external_body]
pub(crate) fn expr_map_new() -> (r: IndexMap<String, Expression>)
    ensures
        expr_map_entries(r) == Seq::<(Seq<char>, ExpressionV)>::empty(),
{
    IndexMap::new()
}

/// Relies on `IndexMap::insert`: an equivalent key keeps its place in the
/// order and its value is updated; a new key is inserted last.
#[verifier::external_body]
pub(crate) fn expr_map_insert(m: &mut IndexMap<String, Expression>, key: String, value: Expression)
    ensures
        expr_map_entries(*final(m)) == insert_entry(expr_map_entries(*old(m)), key@, value@),
{
    m.insert(key, value);
}

/// Relies on `IndexMap::len`: the number of entries.
#[verifier::external_body]
pub(crate) fn expr_map_len(m: &IndexMap<String, Expression>) -> (r: usize)
    ensures
        r == expr_map_entries(*m).len(),
{
    m.len()
}

/// Relies on `IndexMap::get`: the value stored under an equivalent key,
/// if one is present.
#[verifier::external_body]
pub(crate) fn expr_map_get<'a>(m: &'a IndexMap<String, Expression>, key: &str) -> (r: Option<
    &'a Expression,
>)
    ensures
        match r {
            Some(v) => exists|i: int|
                0 <= i < expr_map_entries(*m).len() && expr_map_entries(*m)[i].0 == key@
                    && expr_map_entries(*m)[i].1 == v@,
            None => !has_entry_key(expr_map_entries(*m), key@),
        },
{
    m.get(key)
}

/// Relies on `IndexMap::get_index`: the entry at a position, in order.
#[verifier::external_body]
pub(crate) fn expr_map_get_index<'a>(m: &'a IndexMap<String, Expression>, i: usize) -> (r: (
    &'a String,
    &'a Expression,
))
    requires
        i < expr_map_entries(*m).len(),
    ensures
        r.0@ == expr_map_entries(*m)[i as int].0,
        r.1@ == expr_map_entries(*m)[i as int].1,
{
    let (k, v) = m.get_index(i).unwrap();
    (k, v)
}

/// Relies on `IndexMap::new`: the new map is empty.
#[verifier::external_body]
pub(crate) fn override_map_new() -> (r: IndexMap<(String, String), IndexMap<String, Expression>>)
    ensures
        override_map_entries(r) == Seq::<((Seq<char>, Seq<char>), Seq<(Seq<char>, ExpressionV)>)>::empty(),
{
    IndexMap::new()
}

/// Relies on `IndexMap::insert`: an equivalent key keeps its place in the
/// order and its value is updated; a new key is inserted last.
#[verifier::external_body]
pub(crate) fn override_map_insert(
    m: &mut IndexMap<(String, String), IndexMap<String, Expression>>,
    key: (String, String),
    value: IndexMap<String, Expression>,
)
    ensures
        override_map_entries(*final(m)) == insert_entry(
            override_map_entries(*old(m)),
            (key.0@, key.1@),
            expr_map_entries(value),
        ),
{
    m.insert(key, value);
}

/// Relies on `IndexMap::len`: the number of entries.
#[verifier::external_body]
pub(crate) fn override_map_len(m: &IndexMap<(String, String), IndexMap<String, Expression>>) -> (r:
    usize)
    ensures
        r == override_map_entries(*m).len(),
{
    m.len()
}

/// Relies on `IndexMap::get_index`: the entry at a position, in order.
#[verifier::external_body]
pub(crate) fn override_map_get_index<'a>(
    m: &'a IndexMap<(String, String), IndexMap<String, Expression>>,
    i: usize,
) -> (r: (&'a (String, String), &'a IndexMap<String, Expression>))
    requires
        i < override_map_entries(*m).len(),
    ensures
        (r.0.0@, r.0.1@) == override_map_entries(*m)[i as int].0,
        expr_map_entries(*r.1) == override_map_entries(*m)[i as int].1,
{
    let (k, v) = m.get_index(i).unwrap();
    (k, v)
}

/// Relies on `IndexMap::new`: the new map is empty.
#[verifier::external_body]
pub(crate) fn str_map_new() -> (r: IndexMap<String, String>)
    ensures
        str_map_entries(r) == Seq::<(Seq<char>, Seq<char>)>::empty(),
{
    IndexMap::new()
}

/// Relies on `IndexMap::insert`: an equivalent key keeps its place in the
/// order and its value is updated; a new key is inserted last.
#[verifier::external_body]
pub(crate) fn str_map_insert(m: &mut IndexMap<String, String>, key: String, value: String)
    ensures
        str_map_entries(*final(m)) == insert_entry(str_map_entries(*old(m)), key@, value@),
{
    m.insert(key, value);
}

/// Relies on `IndexMap::len`: the number of entries.
#[verifier::external_body]
pub(crate) fn str_map_len(m: &IndexMap<String, String>) -> (r: usize)
    ensures
        r == str_map_entries(*m).len(),
{
    m.len()
}

/// Relies on `IndexMap::get_index`: the entry at a position, in order.
#[verifier::external_body]
pub(crate) fn str_map_get_index<'a>(m: &'a IndexMap<String, String>, i: usize) -> (r: (
    &'a String,
    &'a String,
))
    requires
        i < str_map_entries(*m).len(),
    ensures
        r.0@ == str_map_entries(*m)[i as int].0,
        r.1@ == str_map_entries(*m)[i as int].1,
{
    let (k, v) = m.get_index(i).unwrap();
    (k, v)
}

} // verus!
