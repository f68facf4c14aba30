//! A cache whose entries live from frame to frame only while they are
//! used: an entry that no one retained during a frame is dropped when the
//! frame after it starts.

use vstd::prelude::*;

verus! {

/// Identity of a cached value: the type of the caller's key, the type of
/// the stored value, and a hash of the key's content. Keys of unrelated
/// call sites differ in a type and so never meet; two keys of the same
/// types whose contents hash alike are one key.
#[derive(Debug, Clone, Copy, PartialEq, Eq, Hash, Structural)]
pub struct CacheKey {
    pub key_type: u64,
    pub value_type: u64,
    pub content_hash: u64,
}

/// A cached value with its mark: whether it was retained since the last
/// sweep.
pub struct CacheEntry<V> {
    pub key: CacheKey,
    pub value: V,
    pub in_use: bool,
}

/// The cache after `key` was retained: its value stays if it had one,
/// else it is `fresh`, and its mark is set.
pub open spec fn retained<V>(cache: Map<CacheKey, (V, bool)>, key: CacheKey, fresh: V) -> Map<
    CacheKey,
    (V, bool),
> {
    cache.insert(
        key,
        (
            if cache.contains_key(key) {
                cache[key].0
            } else {
                fresh
            },
            true,
        ),
    )
}

/// The cache after a sweep: the marked entries stay, without their
/// marks, and the others are gone.
pub open spec fn swept<V>(cache: Map<CacheKey, (V, bool)>) -> Map<CacheKey, (V, bool)> {
    Map::new(|key: CacheKey| cache.contains_key(key) && cache[key].1, |key: CacheKey| (cache[key].0, false))
}

/// The cache after a run of retains, first to last. Each pairs a key
/// with the value it would get if it were not cached.
pub open spec fn retained_all<V>(cache: Map<CacheKey, (V, bool)>, retains: Seq<(CacheKey, V)>) -> Map<
    CacheKey,
    (V, bool),
>
    decreases retains.len(),
{
    if retains.len() == 0 {
        cache
    } else {
        retained(retained_all(cache, retains.drop_last()), retains.last().0, retains.last().1)
    }
}

/// An entry without its mark.
pub open spec fn unmarked<V>(entry: CacheEntry<V>) -> CacheEntry<V> {
    CacheEntry { key: entry.key, value: entry.value, in_use: false }
}

/// The marked entries among those from index `from` on, unmarked, the
/// last of them first.
pub open spec fn kept_from<V>(entries: Seq<CacheEntry<V>>, from: int) -> Seq<CacheEntry<V>>
    decreases entries.len() - from,
{
    if from < 0 || from >= entries.len() {
        Seq::empty()
    } else if entries[from].in_use {
        kept_from(entries, from + 1).push(unmarked(entries[from]))
    } else {
        kept_from(entries, from + 1)
    }
}

/// No two entries share a key.
pub open spec fn distinct_entries<V>(entries: Seq<CacheEntry<V>>) -> bool {
    forall|i: int, j: int|
        0 <= i < j < entries.len() ==> (#[trigger] entries[i]).key != (#[trigger] entries[j]).key
}

/// The entries as a map from key to value and mark.
pub open spec fn entries_map<V>(entries: Seq<CacheEntry<V>>) -> Map<CacheKey, (V, bool)> {
    Map::new(
        |key: CacheKey| exists|i: int| 0 <= i < entries.len() && (#[trigger] entries[i]).key == key,
        |key: CacheKey|
            {
                let i = choose|i: int| 0 <= i < entries.len() && (#[trigger] entries[i]).key == key;
                (entries[i].value, entries[i].in_use)
            },
    )
}

/// The generational cache.
pub struct FrameCache<V> {
    entries: Vec<CacheEntry<V>>,
}

impl<V> View for FrameCache<V> {
    type V = Map<CacheKey, (V, bool)>;

    /// The cached values, each with its mark.
    closed spec fn view(&self) -> Map<CacheKey, (V, bool)> {
        entries_map(self.entries@)
    }
}

impl<V> FrameCache<V> {
    /// The cache invariant.
    pub closed spec fn wf(&self) -> bool {
        distinct_entries(self.entries@)
    }

    /// An empty cache.
    pub fn new() -> (cache: Self)
        ensures
            cache.wf(),
            cache@ == Map::<CacheKey, (V, bool)>::empty(),
    {
        let cache = FrameCache { entries: Vec::new() };
        proof {
            assert(cache@ =~= Map::<CacheKey, (V, bool)>::empty());
        }
        cache
    }

    /// Index of the entry stored under `key`, if there is one.
    fn position(&self, key: CacheKey) -> (found: Option<usize>)
        requires
            self.wf(),
        ensures
            match found {
                Some(i) => i < self.entries@.len() && self.entries@[i as int].key == key,
                None => !self@.contains_key(key),
            },
    {
        let mut index: usize = 0;
        while index < self.entries.len()
            invariant
                index <= self.entries.len(),
                forall|j: int| 0 <= j < index ==> (#[trigger] self.entries@[j]).key != key,
            decreases self.entries.len() - index,
        {
            if self.entries[index].key == key {
                return Some(index);
            }
            index += 1;
        }
        None
    }

    /// Whether a value is cached under `key`. Asking leaves no mark.
    pub fn contains(&self, key: CacheKey) -> (cached: bool)
        requires
            self.wf(),
        ensures
            cached == self@.contains_key(key),
    {
        self.position(key).is_some()
    }

    /// The value cached under `key`. Looking leaves no mark.
    pub fn get(&self, key: CacheKey) -> (value: Option<&V>)
        requires
            self.wf(),
        ensures
            match value {
                Some(v) => self@.contains_key(key) && *v == self@[key].0,
                None => !self@.contains_key(key),
            },
    {
        match self.position(key) {
            Some(i) => {
                proof {
                    lemma_entry_in_map(self.entries@, i as int);
                }
                Some(&self.entries[i].value)
            },
            None => None,
        }
    }

    /// Starts a frame: every entry that was not retained since the last
    /// sweep is dropped, and the marks of the others are cleared, so
    /// that each has to be retained again to outlive the frame that
    /// starts.
    pub fn sweep(&mut self)
        requires
            old(self).wf(),
        ensures
            final(self).wf(),
            final(self)@ == swept(old(self)@),
    {
        let ghost before = self.entries@;
        let mut kept: Vec<CacheEntry<V>> = Vec::new();
        while self.entries.len() > 0
            invariant
                before == old(self).entries@,
                self.entries@.len() <= before.len(),
                self.entries@ == before.take(self.entries@.len() as int),
                kept@ == kept_from(before, self.entries@.len() as int),
            decreases self.entries@.len(),
        {
            let entry = self.entries.pop().unwrap();
            if entry.in_use {
                kept.push(CacheEntry { key: entry.key, value: entry.value, in_use: false });
            }
        }
        proof {
            lemma_kept_map(before, 0);
            assert(before.skip(0) == before);
        }
        self.entries = kept;
    }

    /// Retains the value under `key` for this frame and hands it out.
    /// A key that is not cached yet gets the value that `init` makes;
    /// `init` is not called otherwise. Either way the entry is marked,
    /// whatever its mark was.
    pub fn retain<F: FnOnce() -> V>(&mut self, key: CacheKey, init: F) -> (value: &mut V)
        requires
            old(self).wf(),
            !old(self)@.contains_key(key) ==> call_requires(init, ()),
        ensures
            final(self).wf(),
            old(self)@.contains_key(key) ==> *value == old(self)@[key].0,
            !old(self)@.contains_key(key) ==> call_ensures(init, (), *value),
            final(self)@ == old(self)@.insert(key, (*final(value), true)),
    {
        let index: usize = match self.position(key) {
            Some(i) => i,
            None => {
                let value = init();
                proof {
                    lemma_map_push(self.entries@, CacheEntry { key, value, in_use: true });
                }
                self.entries.push(CacheEntry { key, value, in_use: true });
                self.entries.len() - 1
            },
        };
        proof {
            lemma_entry_in_map(self.entries@, index as int);
            lemma_map_update(self.entries@, index as int);
        }
        let entry = &mut self.entries[index];
        entry.in_use = true;
        &mut entry.value
    }
}

/// Under distinct keys, the map holds each entry as it stands.
pub proof fn lemma_entry_in_map<V>(entries: Seq<CacheEntry<V>>, index: int)
    requires
        distinct_entries(entries),
        0 <= index < entries.len(),
    ensures
        entries_map(entries).contains_key(entries[index].key),
        entries_map(entries)[entries[index].key] == (entries[index].value, entries[index].in_use),
{
    let key = entries[index].key;
    let i = choose|i: int| 0 <= i < entries.len() && (#[trigger] entries[i]).key == key;
    assert(i == index);
}

/// Replacing an entry by one of the same key keeps keys distinct and
/// replaces what the map holds under that key.
pub proof fn lemma_map_update<V>(entries: Seq<CacheEntry<V>>, index: int)
    requires
        distinct_entries(entries),
        0 <= index < entries.len(),
    ensures
        forall|entry: CacheEntry<V>|
            entry.key == entries[index].key ==> distinct_entries(
                #[trigger] entries.update(index, entry),
            ) && entries_map(entries.update(index, entry)) == entries_map(entries).insert(
                entry.key,
                (entry.value, entry.in_use),
            ),
{
    assert forall|entry: CacheEntry<V>| entry.key == entries[index].key implies distinct_entries(
        #[trigger] entries.update(index, entry),
    ) && entries_map(entries.update(index, entry)) == entries_map(entries).insert(
        entry.key,
        (entry.value, entry.in_use),
    ) by {
        let after = entries.update(index, entry);
        let left = entries_map(after);
        let right = entries_map(entries).insert(entry.key, (entry.value, entry.in_use));
        assert forall|i: int| 0 <= i < after.len() implies (#[trigger] after[i]).key
            == entries[i].key by {}
        assert(distinct_entries(after));
        assert forall|key: CacheKey| left.contains_key(key) implies right.contains_key(key)
            && left[key] == right[key] by {
            let i = choose|i: int| 0 <= i < after.len() && (#[trigger] after[i]).key == key;
            lemma_entry_in_map(after, i);
            assert(entries[i].key == key);
            if i != index {
                lemma_entry_in_map(entries, i);
            }
        }
        assert forall|key: CacheKey| right.contains_key(key) implies left.contains_key(key) by {
            if key == entry.key {
                assert(after[index].key == key);
            } else {
                let i = choose|i: int| 0 <= i < entries.len() && (#[trigger] entries[i]).key == key;
                assert(after[i].key == key);
            }
        }
        assert(left =~= right);
    }
}

/// A new entry under an absent key keeps keys distinct and adds what it
/// holds to the map.
pub proof fn lemma_map_push<V>(entries: Seq<CacheEntry<V>>, entry: CacheEntry<V>)
    requires
        distinct_entries(entries),
        !entries_map(entries).contains_key(entry.key),
    ensures
        distinct_entries(entries.push(entry)),
        entries_map(entries.push(entry)) == entries_map(entries).insert(
            entry.key,
            (entry.value, entry.in_use),
        ),
{
    let after = entries.push(entry);
    let left = entries_map(after);
    let right = entries_map(entries).insert(entry.key, (entry.value, entry.in_use));
    assert forall|i: int| 0 <= i < entries.len() implies (#[trigger] after[i]) == entries[i] by {}
    assert forall|i: int, j: int| 0 <= i < j < after.len() implies (#[trigger] after[i]).key != (
    #[trigger] after[j]).key by {
        if j == entries.len() {
            assert(entries[i].key != entry.key);
        }
    }
    assert forall|key: CacheKey| left.contains_key(key) implies right.contains_key(key) && left[key]
        == right[key] by {
        let i = choose|i: int| 0 <= i < after.len() && (#[trigger] after[i]).key == key;
        lemma_entry_in_map(after, i);
        if i < entries.len() {
            assert(entries[i].key == key);
            lemma_entry_in_map(entries, i);
        }
    }
    assert forall|key: CacheKey| right.contains_key(key) implies left.contains_key(key) by {
        if key == entry.key {
            assert(after[entries.len() as int].key == key);
        } else {
            let i = choose|i: int| 0 <= i < entries.len() && (#[trigger] entries[i]).key == key;
            assert(after[i].key == key);
        }
    }
    assert(left =~= right);
}

/// A new entry at the front, under an absent key, keeps keys distinct
/// and adds what it holds to the map.
pub proof fn lemma_map_cons<V>(entries: Seq<CacheEntry<V>>, entry: CacheEntry<V>)
    requires
        distinct_entries(entries),
        !entries_map(entries).contains_key(entry.key),
    ensures
        distinct_entries(seq![entry] + entries),
        entries_map(seq![entry] + entries) == entries_map(entries).insert(
            entry.key,
            (entry.value, entry.in_use),
        ),
{
    let after = seq![entry] + entries;
    let left = entries_map(after);
    let right = entries_map(entries).insert(entry.key, (entry.value, entry.in_use));
    assert forall|i: int| 0 <= i < entries.len() implies (#[trigger] after[i + 1]) == entries[i] by {}
    assert forall|i: int, j: int| 0 <= i < j < after.len() implies (#[trigger] after[i]).key != (
    #[trigger] after[j]).key by {
        assert(after[j] == entries[j - 1]);
        if i == 0 {
            assert(entries[j - 1].key != entry.key);
        } else {
            assert(after[i] == entries[i - 1]);
        }
    }
    assert forall|key: CacheKey| left.contains_key(key) implies right.contains_key(key) && left[key]
        == right[key] by {
        let i = choose|i: int| 0 <= i < after.len() && (#[trigger] after[i]).key == key;
        lemma_entry_in_map(after, i);
        if i > 0 {
            assert(after[i] == entries[i - 1]);
            assert(entries[i - 1].key == key);
            lemma_entry_in_map(entries, i - 1);
        }
    }
    assert forall|key: CacheKey| right.contains_key(key) implies left.contains_key(key) by {
        if key == entry.key {
            assert(after[0].key == key);
        } else {
            let i = choose|i: int| 0 <= i < entries.len() && (#[trigger] entries[i]).key == key;
            assert(after[i + 1].key == key);
        }
    }
    assert(left =~= right);
}

/// What `kept_from` keeps is the swept map of the entries from `from`
/// on, under distinct keys.
pub proof fn lemma_kept_map<V>(before: Seq<CacheEntry<V>>, from: int)
    requires
        distinct_entries(before),
        0 <= from <= before.len(),
    ensures
        distinct_entries(kept_from(before, from)),
        distinct_entries(before.skip(from)),
        entries_map(kept_from(before, from)) == swept(entries_map(before.skip(from))),
    decreases before.len() - from,
{
    let here = before.skip(from);
    assert forall|i: int| 0 <= i < here.len() implies (#[trigger] here[i]) == before[from + i] by {}
    assert(distinct_entries(here));
    if from < before.len() {
        lemma_kept_map(before, from + 1);
        let rest = before.skip(from + 1);
        let tail = kept_from(before, from + 1);
        let entry = before[from];
        assert(here =~= seq![entry] + rest);
        if entries_map(rest).contains_key(entry.key) {
            let i = choose|i: int| 0 <= i < rest.len() && (#[trigger] rest[i]).key == entry.key;
            assert(rest[i] == before[from + 1 + i]);
            assert(before[from].key != before[from + 1 + i].key);
        }
        lemma_map_cons(rest, entry);
        if entry.in_use {
            lemma_map_push(tail, unmarked(entry));
            assert(swept(entries_map(here)) =~= swept(entries_map(rest)).insert(
                entry.key,
                (entry.value, false),
            ));
        } else {
            assert(swept(entries_map(here)) =~= swept(entries_map(rest)));
        }
    } else {
        assert(entries_map(kept_from(before, from)) =~= swept(entries_map(here)));
    }
}

/// Retains of other keys leave an entry as it is; retains of its own
/// key leave it marked.
pub proof fn lemma_retains_keep<V>(
    cache: Map<CacheKey, (V, bool)>,
    retains: Seq<(CacheKey, V)>,
    key: CacheKey,
)
    requires
        cache.contains_key(key),
    ensures
        retained_all(cache, retains).contains_key(key),
        cache[key].1 ==> retained_all(cache, retains)[key].1,
        (forall|i: int| 0 <= i < retains.len() ==> (#[trigger] retains[i]).0 != key)
            ==> retained_all(cache, retains)[key] == cache[key],
    decreases retains.len(),
{
    if retains.len() > 0 {
        lemma_retains_keep(cache, retains.drop_last(), key);
        if forall|i: int| 0 <= i < retains.len() ==> (#[trigger] retains[i]).0 != key {
            assert forall|i: int| 0 <= i < retains.drop_last().len() implies (
            #[trigger] retains.drop_last()[i]).0 != key by {
                assert(retains.drop_last()[i] == retains[i]);
            }
            assert(retains.last() == retains[retains.len() - 1]);
        }
    }
}

/// An entry lives one frame past its last retain. Retained during a
/// frame, whatever else that frame retains, it is cached throughout the
/// next frame as long as that frame does not retain it, and it is gone
/// once the frame after that has started.
pub proof fn lemma_one_generation<V>(
    cache: Map<CacheKey, (V, bool)>,
    key: CacheKey,
    fresh: V,
    same_frame: Seq<(CacheKey, V)>,
    next_frame: Seq<(CacheKey, V)>,
)
    requires
        forall|i: int| 0 <= i < next_frame.len() ==> (#[trigger] next_frame[i]).0 != key,
    ensures
        ({
            let first = retained_all(retained(cache, key, fresh), same_frame);
            let second = retained_all(swept(first), next_frame);
            &&& swept(first).contains_key(key)
            &&& second.contains_key(key)
            &&& !swept(second).contains_key(key)
        }),
{
    let marked = retained(cache, key, fresh);
    lemma_retains_keep(marked, same_frame, key);
    let first = retained_all(marked, same_frame);
    lemma_retains_keep(swept(first), next_frame, key);
}

} // verus!
