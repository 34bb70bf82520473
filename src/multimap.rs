//! The ordered multimap of MMS headers: duplicate headers are kept, and
//! every header keeps its place in insertion order.

use crate::mms_header::{MmsHeader, MmsHeaderValue, MmsHeaderValueView};
use ordered_multimap::ListOrderedMultimap;
use vstd::prelude::*;

verus! {

#[verifier::external_type_specification]
#[verifier::external_body]
#[verifier::reject_recursive_types(Key)]
#[verifier::reject_recursive_types(Value)]
#[verifier::reject_recursive_types(State)]
pub struct ExListOrderedMultimap<Key, Value, State>(ListOrderedMultimap<Key, Value, State>);

/// The headers of a message, in insertion order, duplicates kept.
pub type HeaderMap = ListOrderedMultimap<MmsHeader, MmsHeaderValue>;

/// The header-value pairs of a header map, in insertion order.
pub uninterp spec fn header_entries(m: ListOrderedMultimap<MmsHeader, MmsHeaderValue>) -> Seq<(MmsHeader, MmsHeaderValue)>;

/// What each header-value pair holds.
pub open spec fn entries_view(s: Seq<(MmsHeader, MmsHeaderValue)>) -> Seq<(MmsHeader, MmsHeaderValueView)> {
    s.map_values(|e: (MmsHeader, MmsHeaderValue)| (e.0, e.1@))
}

/// The pairs of `s` whose header is not `k`, in order.
pub open spec fn without_key<V>(s: Seq<(MmsHeader, V)>, k: MmsHeader) -> Seq<(MmsHeader, V)>
    decreases s.len(),
{
    if s.len() == 0 {
        s
    } else if s.last().0 == k {
        without_key(s.drop_last(), k)
    } else {
        without_key(s.drop_last(), k).push(s.last())
    }
}

/// The first value of header `k` in `s`.
pub open spec fn first_value<V>(s: Seq<(MmsHeader, V)>, k: MmsHeader) -> Option<V>
    decreases s.len(),
{
    if s.len() == 0 {
        None
    } else if s[0].0 == k {
        Some(s[0].1)
    } else {
        first_value(s.skip(1), k)
    }
}

/// Relies on `ListOrderedMultimap::new`: the map starts empty.
#[verifier::external_body]
pub(crate) fn header_map_new() -> (r: HeaderMap)
    ensures
        header_entries(r) == Seq::<(MmsHeader, MmsHeaderValue)>::empty(),
{
    ListOrderedMultimap::new()
}

/// Relies on `ListOrderedMultimap::append`: the pair goes after all others,
/// and the others stay.
#[verifier::external_body]
pub(crate) fn header_map_append(m: &mut HeaderMap, key: MmsHeader, value: MmsHeaderValue)
    ensures
        header_entries(*final(m)) == header_entries(*old(m)).push((key, value)),
{
    m.append(key, value);
}

/// Relies on `ListOrderedMultimap::insert`: the values already held for the
/// key leave, and the new pair goes after all others.
#[verifier::external_body]
pub(crate) fn header_map_insert(m: &mut HeaderMap, key: MmsHeader, value: MmsHeaderValue)
    ensures
        header_entries(*final(m)) == without_key(header_entries(*old(m)), key).push((key, value)),
{
    m.insert(key, value);
}

/// Relies on `ListOrderedMultimap::get`: the first value of the key, by
/// insertion order.
#[verifier::external_body]
pub(crate) fn header_map_get<'a>(m: &'a HeaderMap, key: &MmsHeader) -> (r: Option<&'a MmsHeaderValue>)
    ensures
        match first_value(header_entries(*m), *key) {
            Some(v) => (r matches Some(x) && *x == v),
            None => r is None,
        },
{
    m.get(key)
}

/// Relies on `ListOrderedMultimap::remove`: every value of the key leaves,
/// and the first of them is returned.
#[verifier::external_body]
pub(crate) fn header_map_remove(m: &mut HeaderMap, key: &MmsHeader) -> (r: Option<MmsHeaderValue>)
    ensures
        r == first_value(header_entries(*old(m)), *key),
        header_entries(*final(m)) == without_key(header_entries(*old(m)), *key),
{
    m.remove(key)
}

/// Relies on `ListOrderedMultimap::into_iter`: every pair, in insertion
/// order.
#[verifier::external_body]
pub(crate) fn header_map_into_entries(m: HeaderMap) -> (r: Vec<(MmsHeader, MmsHeaderValue)>)
    ensures
        r@ == header_entries(m),
{
    m.into_iter().collect()
}

} // verus!
