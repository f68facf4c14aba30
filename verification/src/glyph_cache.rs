//! The recency-ordered glyph store behind an atlas, reached through
//! contracts over the sequence of entries it holds.

use vstd::prelude::*;
use crate::glyph::GlyphData;

verus! {

/// `lru::LruCache`, carried as it is: nothing is known of a store but
/// what the functions below say.
#[verifier::external_type_specification]
#[verifier::external_body]
#[verifier::reject_recursive_types(K)]
#[verifier::reject_recursive_types(V)]
#[verifier::reject_recursive_types(S)]
pub struct ExLruCache<K, V, S>(lru::LruCache<K, V, S>);

/// `lru::DefaultHasher`, the hasher of a store made without one.
#[verifier::external_type_specification]
#[verifier::external_body]
pub struct ExDefaultHasher(lru::DefaultHasher);

/// The entries of the store, most recently used first: the last entry is
/// the one that was touched longest ago.
pub uninterp spec fn lru_entries(cache: lru::LruCache<u64, GlyphData>) -> Seq<(u64, GlyphData)>;

/// The number of entries that the store was made to hold.
pub uninterp spec fn lru_capacity(cache: lru::LruCache<u64, GlyphData>) -> nat;

/// The entries after the one at `index` has been touched: it moves to the
/// front and the others keep their order.
pub open spec fn promoted(entries: Seq<(u64, GlyphData)>, index: int) -> Seq<(u64, GlyphData)> {
    seq![entries[index]] + entries.remove(index)
}

/// Whether some entry is stored under `key`.
pub open spec fn has_key(entries: Seq<(u64, GlyphData)>, key: u64) -> bool {
    exists|i: int| 0 <= i < entries.len() && (#[trigger] entries[i]).0 == key
}

/// `lru::LruCache::unbounded`: an empty store whose capacity is the
/// largest `usize`.
#[verifier::external_body]
pub(crate) fn cache_new() -> (cache: lru::LruCache<u64, GlyphData>)
    ensures
        lru_entries(cache).len() == 0,
        lru_capacity(cache) == usize::MAX,
{
    lru::LruCache::unbounded()
}

/// `lru::LruCache::len`: the number of entries held.
#[verifier::external_body]
pub(crate) fn cache_len(cache: &lru::LruCache<u64, GlyphData>) -> (len: usize)
    ensures
        len == lru_entries(*cache).len(),
{
    cache.len()
}

/// `lru::LruCache::get`: looks `key` up. A hit returns the stored value
/// and moves the entry to the front; a miss changes nothing.
#[verifier::external_body]
pub(crate) fn cache_get(cache: &mut lru::LruCache<u64, GlyphData>, key: u64) -> (found: Option<
    GlyphData,
>)
    ensures
        lru_capacity(*final(cache)) == lru_capacity(*old(cache)),
        match found {
            Some(data) => exists|i: int|
                0 <= i < lru_entries(*old(cache)).len() && #[trigger] lru_entries(*old(cache))[i]
                    == (key, data) && lru_entries(*final(cache)) == promoted(
                    lru_entries(*old(cache)),
                    i,
                ),
            None => !has_key(lru_entries(*old(cache)), key) && lru_entries(*final(cache))
                == lru_entries(*old(cache)),
        },
{
    cache.get(&key).copied()
}

/// `lru::LruCache::peek`: the value stored under `key`, if there is one.
/// Looking changes nothing, the order of the entries included.
#[verifier::external_body]
pub(crate) fn cache_peek(cache: &lru::LruCache<u64, GlyphData>, key: u64) -> (found: Option<
    GlyphData,
>)
    ensures
        match found {
            Some(data) => lru_entries(*cache).contains((key, data)),
            None => !has_key(lru_entries(*cache), key),
        },
{
    cache.peek(&key).copied()
}

/// `lru::LruCache::get_or_insert`, on a store that has room and does not
/// hold `key`: the new entry goes to the front, the others keep their
/// order, and the stored value is returned.
#[verifier::external_body]
pub(crate) fn cache_insert(cache: &mut lru::LruCache<u64, GlyphData>, key: u64, data: GlyphData) -> (stored:
    GlyphData)
    requires
        !has_key(lru_entries(*old(cache)), key),
        lru_entries(*old(cache)).len() < lru_capacity(*old(cache)),
    ensures
        stored == data,
        lru_capacity(*final(cache)) == lru_capacity(*old(cache)),
        lru_entries(*final(cache)) == seq![(key, data)] + lru_entries(*old(cache)),
{
    *cache.get_or_insert(key, || data)
}

/// `lru::LruCache::pop`: removes the entry stored under `key` and returns
/// its value; the others keep their order. A miss changes nothing.
#[verifier::external_body]
pub(crate) fn cache_pop(cache: &mut lru::LruCache<u64, GlyphData>, key: u64) -> (removed: Option<
    GlyphData,
>)
    ensures
        lru_capacity(*final(cache)) == lru_capacity(*old(cache)),
        match removed {
            Some(data) => exists|i: int|
                0 <= i < lru_entries(*old(cache)).len() && #[trigger] lru_entries(*old(cache))[i]
                    == (key, data) && lru_entries(*final(cache)) == lru_entries(
                    *old(cache),
                ).remove(i),
            None => !has_key(lru_entries(*old(cache)), key) && lru_entries(*final(cache))
                == lru_entries(*old(cache)),
        },
{
    cache.pop(&key)
}

/// `lru::LruCache::iter`: the entries in order, most recently used first.
#[verifier::external_body]
pub(crate) fn cache_entries(cache: &lru::LruCache<u64, GlyphData>) -> (entries: Vec<
    (u64, GlyphData),
>)
    ensures
        entries@ == lru_entries(*cache),
{
    cache.iter().map(|(key, data)| (*key, *data)).collect()
}

} // verus!
