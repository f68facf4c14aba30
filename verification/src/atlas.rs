//! A glyph atlas: a square texture surface packed with glyph bitmaps, a
//! recency-ordered cache of what was packed, and the set of glyphs that
//! the frame being built has already used.
//!
//! The atlas decides where bitmaps go and which cached glyphs must give
//! way under pressure. Pixels never pass through it: whoever owns the
//! texture uploads them to the coordinates that the atlas hands out.

use std::collections::HashSet;
use vstd::prelude::*;
use crate::glyph::{ContentType, GlyphCacheStatus, GlyphData};
use crate::glyph_cache::{
    cache_entries, cache_get, cache_insert, cache_len, cache_new, cache_peek, cache_pop,
    has_key, lru_capacity, lru_entries, promoted,
};
use crate::packer::{
    apart, packer_allocate, packer_deallocate, packer_grants, packer_grow, packer_new,
    packer_size, packer_slots, MAX_PACKER_SIDE,
};

verus! {

broadcast use vstd::std_specs::hash::group_hash_axioms;

/// Side of a freshly made atlas, unless the hardware limit is smaller.
pub const START_SIZE: u32 = 256;

/// Factor by which the side grows, up to the hardware limit.
pub const GROWTH_FACTOR: u32 = 2;

/// A packer slot handed out for one glyph bitmap.
#[derive(Debug, Clone, Copy, PartialEq, Eq, Hash, Structural)]
pub struct AtlasSlot {
    /// The packer's handle, needed to release the slot.
    pub alloc_id: u32,
    /// Left edge of the slot on the surface.
    pub x: u16,
    /// Top edge of the slot on the surface.
    pub y: u16,
}

/// What becomes of a request for room after the packer has answered.
#[derive(Debug, Clone, Copy, PartialEq, Eq, Hash, Structural)]
pub enum Attempt {
    /// The packer granted this slot.
    Granted(AtlasSlot),
    /// The packer refused and nothing may be evicted.
    Refused,
    /// The packer refused and a glyph was evicted: ask again.
    Again,
}

/// No two entries share a key.
pub open spec fn distinct_keys(entries: Seq<(u64, GlyphData)>) -> bool {
    forall|i: int, j: int|
        0 <= i < j < entries.len() ==> (#[trigger] entries[i]).0 != (#[trigger] entries[j]).0
}

/// The packer handle of a glyph that is in the atlas.
pub open spec fn slot_id(data: GlyphData) -> u32 {
    match data.cache_status {
        GlyphCacheStatus::InAtlas { alloc_id, .. } => alloc_id,
        GlyphCacheStatus::ZeroSized => 0,
    }
}

/// The rectangle on the surface of a glyph that is in the atlas: left
/// edge, top edge, width and height.
pub open spec fn slot_rect(data: GlyphData) -> (int, int, int, int) {
    match data.cache_status {
        GlyphCacheStatus::InAtlas { x, y, .. } => (
            x as int,
            y as int,
            data.width as int,
            data.height as int,
        ),
        GlyphCacheStatus::ZeroSized => (0, 0, 0, 0),
    }
}

/// The content type that a glyph in the atlas records.
pub open spec fn slot_type(data: GlyphData) -> ContentType {
    match data.cache_status {
        GlyphCacheStatus::InAtlas { content_type, .. } => content_type,
        GlyphCacheStatus::ZeroSized => ContentType::Mask,
    }
}

/// Every held slot is a rectangle with pixels that lies on a surface of
/// the given side.
pub open spec fn slots_fit(slots: Map<u32, (int, int, int, int)>, side: int) -> bool {
    forall|id: u32|
        slots.contains_key(id) ==> {
            let rect = #[trigger] slots[id];
            &&& 0 <= rect.0
            &&& 0 <= rect.1
            &&& 0 < rect.2
            &&& 0 < rect.3
            &&& rect.0 + rect.2 <= side
            &&& rect.1 + rect.3 <= side
        }
}

/// No two held slots share a pixel.
pub open spec fn slots_apart(slots: Map<u32, (int, int, int, int)>) -> bool {
    forall|a: u32, b: u32|
        slots.contains_key(a) && slots.contains_key(b) && a != b ==> apart(
            #[trigger] slots[a],
            #[trigger] slots[b],
        )
}

/// Every cached glyph that is in the atlas records the content type
/// `typ`.
pub open spec fn typed(entries: Seq<(u64, GlyphData)>, typ: ContentType) -> bool {
    forall|i: int|
        0 <= i < entries.len() && (#[trigger] entries[i]).1.in_atlas() ==> slot_type(entries[i].1)
            == typ
}

/// Every cached glyph that is in the atlas owns a held packer slot, whose
/// rectangle is the one the glyph records, and no two of them own the
/// same slot.
pub open spec fn slots_hold(entries: Seq<(u64, GlyphData)>, slots: Map<u32, (int, int, int, int)>) -> bool {
    &&& forall|i: int|
        0 <= i < entries.len() && (#[trigger] entries[i]).1.in_atlas() ==> slots.contains_key(
            slot_id(entries[i].1),
        ) && slots[slot_id(entries[i].1)] == slot_rect(entries[i].1)
    &&& forall|i: int, j: int|
        0 <= i < j < entries.len() && (#[trigger] entries[i]).1.in_atlas() && (
        #[trigger] entries[j]).1.in_atlas() ==> slot_id(entries[i].1) != slot_id(entries[j].1)
}

/// The side that an atlas starts with under a hardware limit.
pub open spec fn start_size(max_texture_size: u32) -> u32 {
    if max_texture_size < START_SIZE {
        max_texture_size
    } else {
        START_SIZE
    }
}

/// Index of the eviction candidate: the least recently used entry among
/// those that hold a packer slot, or `-1` when no entry holds one.
/// Zero-sized glyphs are passed over, since evicting them frees nothing.
pub open spec fn lru_candidate(entries: Seq<(u64, GlyphData)>) -> int
    decreases entries.len(),
{
    if entries.len() == 0 {
        -1
    } else if entries.last().1.in_atlas() {
        entries.len() - 1
    } else {
        lru_candidate(entries.drop_last())
    }
}

/// Whether an eviction may go ahead: there is a candidate, and the frame
/// being built has not used it.
pub open spec fn can_evict(entries: Seq<(u64, GlyphData)>, in_use: Set<u64>) -> bool {
    lru_candidate(entries) >= 0 && !in_use.contains(entries[lru_candidate(entries)].0)
}

/// Whether the frame being built has used every glyph that holds a
/// slot.
pub open spec fn all_slots_in_use(entries: Seq<(u64, GlyphData)>, in_use: Set<u64>) -> bool {
    forall|i: int|
        0 <= i < entries.len() && (#[trigger] entries[i]).1.in_atlas() ==> in_use.contains(
            entries[i].0,
        )
}

/// The cache after its eviction candidate has been dropped.
pub open spec fn evict_one(entries: Seq<(u64, GlyphData)>) -> Seq<(u64, GlyphData)> {
    entries.remove(lru_candidate(entries))
}

/// The cache after `n` evictions in a row.
pub open spec fn evict_n(entries: Seq<(u64, GlyphData)>, n: nat) -> Seq<(u64, GlyphData)>
    decreases n,
{
    if n == 0 {
        entries
    } else {
        evict_one(evict_n(entries, (n - 1) as nat))
    }
}

/// Whether `n` evictions in a row may all go ahead.
pub open spec fn evictable_n(entries: Seq<(u64, GlyphData)>, in_use: Set<u64>, n: nat) -> bool
    decreases n,
{
    n == 0 || (evictable_n(entries, in_use, (n - 1) as nat) && can_evict(
        evict_n(entries, (n - 1) as nat),
        in_use,
    ))
}

/// The held slots after `n` evictions in a row have released theirs.
pub open spec fn release_n(
    slots: Map<u32, (int, int, int, int)>,
    entries: Seq<(u64, GlyphData)>,
    n: nat,
) -> Map<u32, (int, int, int, int)>
    decreases n,
{
    if n == 0 {
        slots
    } else {
        let before = evict_n(entries, (n - 1) as nat);
        release_n(slots, entries, (n - 1) as nat).remove(slot_id(before[lru_candidate(before)].1))
    }
}

/// The side after one growth step: doubled, but never past the hardware
/// limit, and unchanged once the limit is reached.
pub open spec fn grown_size(size: u32, max_texture_size: u32) -> u32 {
    if size >= max_texture_size {
        size
    } else if size * GROWTH_FACTOR >= max_texture_size {
        max_texture_size
    } else {
        (size * GROWTH_FACTOR) as u32
    }
}

/// Whether growth steps lead from the side `size` to the side `target`.
pub open spec fn grows_to(size: u32, max_texture_size: u32, target: u32) -> bool
    decreases max_texture_size - size,
{
    size == target || (0 < size < max_texture_size && grows_to(
        grown_size(size, max_texture_size),
        max_texture_size,
        target,
    ))
}

/// The glyphs that hold a slot, in cache order, each with its key and
/// the corner of its slot.
pub open spec fn resident(entries: Seq<(u64, GlyphData)>) -> Seq<(u64, u16, u16)>
    decreases entries.len(),
{
    if entries.len() == 0 {
        Seq::empty()
    } else {
        let rest = resident(entries.drop_last());
        match entries.last().1.cache_status {
            GlyphCacheStatus::InAtlas { x, y, .. } => rest.push((entries.last().0, x, y)),
            GlyphCacheStatus::ZeroSized => rest,
        }
    }
}

/// Whether `data` records the metrics that the rasterizer reported, each
/// cut down to the sixteen bits that the cache keeps.
pub open spec fn metrics_match(data: GlyphData, width: u32, height: u32, top: i32, left: i32) -> bool {
    &&& data.width == width as u16
    &&& data.height == height as u16
    &&& data.top == top as i16
    &&& data.left == left as i16
}

/// What `GlyphAtlas::place` does with a glyph that is not cached:
/// `before` and `after` are the atlas around the call and `placed` is
/// what it returned.
pub open spec fn place_outcome(
    before: GlyphAtlas,
    after: GlyphAtlas,
    key: u64,
    width: u32,
    height: u32,
    top: i32,
    left: i32,
    placed: Option<GlyphData>,
) -> bool {
    let cached = before.entries();
    let used = before.in_use();
    let size = after.spec_texture_size();
    let asked_width = requested(width as usize);
    let asked_height = requested(height as usize);
    let has_pixels = width > 0 && height > 0;
    &&& after.spec_typ() == before.spec_typ()
    &&& after.spec_max_texture_size() == before.spec_max_texture_size()
    &&& grows_to(before.spec_texture_size(), before.spec_max_texture_size(), size)
    &&& cached.len() < usize::MAX && (!has_pixels || before.grants(asked_width, asked_height))
        ==> placed is Some && after.entries().len() == cached.len() + 1 && size
        == before.spec_texture_size()
    &&& match placed {
        Some(data) => {
            let n = (cached.len() + 1 - after.entries().len()) as nat;
            let released = release_n(before.slots(), cached, n);
            &&& after.entries().len() <= cached.len() + 1
            &&& evictable_n(cached, used, n)
            &&& evicted_on_refusal(before, n, asked_width, asked_height)
            &&& after.entries() == seq![(key, data)] + evict_n(cached, n)
            &&& after.in_use() == used.insert(key)
            &&& metrics_match(data, width, height, top, left)
            &&& if has_pixels {
                match data.cache_status {
                    GlyphCacheStatus::InAtlas { x, y, content_type, alloc_id } => {
                        &&& x + width <= size
                        &&& y + height <= size
                        &&& content_type == before.spec_typ()
                        &&& !released.contains_key(alloc_id)
                        &&& after.slots() == released.insert(
                            alloc_id,
                            (x as int, y as int, width as int, height as int),
                        )
                    },
                    GlyphCacheStatus::ZeroSized => false,
                }
            } else {
                &&& data.cache_status == GlyphCacheStatus::ZeroSized
                &&& n == 0
                &&& size == before.spec_texture_size()
                &&& after.slots() == before.slots()
            }
        },
        None => {
            let n = (cached.len() - after.entries().len()) as nat;
            &&& after.entries().len() <= cached.len()
            &&& evictable_n(cached, used, n)
            &&& evicted_on_refusal(before, n, asked_width, asked_height)
            &&& after.entries() == evict_n(cached, n)
            &&& after.in_use() == used
            &&& after.slots() == release_n(before.slots(), cached, n)
            &&& if cached.len() >= usize::MAX {
                n == 0 && size == before.spec_texture_size()
            } else {
                &&& has_pixels
                &&& size == before.spec_max_texture_size()
                &&& !can_evict(after.entries(), used)
                &&& !after.grants(asked_width, asked_height)
                &&& !before.grants(asked_width, asked_height)
            }
        },
    }
}

/// Whether the packer has room for the same requests in two states of an
/// atlas.
pub open spec fn same_room(before: GlyphAtlas, after: GlyphAtlas) -> bool {
    forall|width: i32, height: i32|
        #[trigger] after.grants(width, height) == before.grants(width, height)
}

/// Whether `trail` is the atlas before each eviction of a run that
/// started from the cache `entries` and the slots `slots`: the packer
/// had just refused the request each time.
pub open spec fn refused_each_time(
    trail: Seq<GlyphAtlas>,
    entries: Seq<(u64, GlyphData)>,
    slots: Map<u32, (int, int, int, int)>,
    width: i32,
    height: i32,
) -> bool {
    forall|j: int|
        0 <= j < trail.len() ==> {
            &&& !(#[trigger] trail[j]).grants(width, height)
            &&& trail[j].entries() == evict_n(entries, j as nat)
            &&& trail[j].slots() == release_n(slots, entries, j as nat)
        }
}

/// Whether the `n` evictions of a request that began in the atlas
/// `before` each followed a refusal by the packer.
pub open spec fn evicted_on_refusal(before: GlyphAtlas, n: nat, width: i32, height: i32) -> bool {
    exists|trail: Seq<GlyphAtlas>|
        {
            &&& trail.len() == n
            &&& n > 0 ==> unchanged(before, trail[0])
            &&& #[trigger] refused_each_time(
                trail,
                before.entries(),
                before.slots(),
                width,
                height,
            )
        }
}

/// Whether two states of an atlas are alike in everything that can be
/// observed.
pub open spec fn unchanged(before: GlyphAtlas, after: GlyphAtlas) -> bool {
    &&& same_room(before, after)
    &&& after.entries() == before.entries()
    &&& after.in_use() == before.in_use()
    &&& after.slots() == before.slots()
    &&& after.spec_texture_size() == before.spec_texture_size()
    &&& after.spec_max_texture_size() == before.spec_max_texture_size()
    &&& after.spec_typ() == before.spec_typ()
}

/// What `GlyphAtlas::lookup` does: `before` and `after` are the atlas
/// around the call and `found` is what it returned.
pub open spec fn lookup_outcome(
    before: GlyphAtlas,
    after: GlyphAtlas,
    key: u64,
    found: Option<GlyphData>,
) -> bool {
    match found {
        Some(data) => {
            &&& exists|i: int|
                0 <= i < before.entries().len() && #[trigger] before.entries()[i] == (key, data)
                    && after.entries() == promoted(before.entries(), i)
            &&& after.in_use() == before.in_use().insert(key)
            &&& same_room(before, after)
            &&& after.slots() == before.slots()
            &&& after.spec_texture_size() == before.spec_texture_size()
            &&& after.spec_max_texture_size() == before.spec_max_texture_size()
            &&& after.spec_typ() == before.spec_typ()
        },
        None => !has_key(before.entries(), key) && unchanged(before, after),
    }
}

/// A requested side as the packer takes it: the low 32 bits, signed.
pub open spec fn requested(side: usize) -> i32 {
    #[verifier::truncate]
    (side as i32)
}

/// One atlas. Two exist side by side, one per content type, and each is
/// packed, cached and evicted on its own.
pub struct GlyphAtlas {
    typ: ContentType,
    texture_size: u32,
    max_texture_size: u32,
    packer: etagere::BucketedAtlasAllocator,
    glyph_cache: lru::LruCache<u64, GlyphData>,
    glyphs_in_use: HashSet<u64>,
}

impl GlyphAtlas {
    /// The cached glyphs, most recently used first.
    pub closed spec fn entries(&self) -> Seq<(u64, GlyphData)> {
        lru_entries(self.glyph_cache)
    }

    /// The glyphs that the frame being built has used so far.
    pub closed spec fn in_use(&self) -> Set<u64> {
        self.glyphs_in_use@
    }

    /// The packer slots that are held, each handle with its corner.
    pub closed spec fn slots(&self) -> Map<u32, (int, int, int, int)> {
        packer_slots(self.packer)
    }

    /// The content type that the atlas holds.
    pub closed spec fn spec_typ(&self) -> ContentType {
        self.typ
    }

    /// Side of the square surface, in pixels.
    pub closed spec fn spec_texture_size(&self) -> u32 {
        self.texture_size
    }

    /// Largest side that the hardware supports.
    pub closed spec fn spec_max_texture_size(&self) -> u32 {
        self.max_texture_size
    }

    /// The packer surface has the atlas' size and the cache never drops
    /// an entry by itself.
    pub closed spec fn parts_agree(&self) -> bool {
        &&& packer_size(self.packer) == (self.texture_size as int, self.texture_size as int)
        &&& lru_capacity(self.glyph_cache) == usize::MAX
    }

    /// The atlas invariant.
    pub open spec fn wf(&self) -> bool {
        &&& self.parts_agree()
        &&& start_size(self.spec_max_texture_size()) <= self.spec_texture_size()
            <= self.spec_max_texture_size() <= MAX_PACKER_SIDE
        &&& distinct_keys(self.entries())
        &&& slots_hold(self.entries(), self.slots())
        &&& typed(self.entries(), self.spec_typ())
        &&& slots_fit(self.slots(), self.spec_texture_size() as int)
        &&& slots_apart(self.slots())
        &&& self.in_use().finite()
    }

    /// Whether the packer, as it stands, has room for a bitmap of the
    /// given size.
    pub closed spec fn grants(&self, width: i32, height: i32) -> bool {
        packer_grants(self.packer, width as int, height as int)
    }

    /// An empty atlas for glyphs of content type `typ`, under the given
    /// hardware limit on the texture side.
    pub fn new(max_texture_size: u32, typ: ContentType) -> (atlas: GlyphAtlas)
        requires
            max_texture_size <= MAX_PACKER_SIDE,
        ensures
            atlas.wf(),
            atlas.spec_typ() == typ,
            atlas.spec_max_texture_size() == max_texture_size,
            atlas.spec_texture_size() == start_size(max_texture_size),
            atlas.entries() == Seq::<(u64, GlyphData)>::empty(),
            atlas.in_use() == Set::<u64>::empty(),
            atlas.slots() == Map::<u32, (int, int, int, int)>::empty(),
    {
        let texture_size: u32 = if max_texture_size < START_SIZE {
            max_texture_size
        } else {
            START_SIZE
        };
        let packer = packer_new(texture_size);
        let glyph_cache = cache_new();
        let glyphs_in_use: HashSet<u64> = HashSet::new();
        proof {
            assert(lru_entries(glyph_cache) =~= Seq::<(u64, GlyphData)>::empty());
        }
        GlyphAtlas { typ, texture_size, max_texture_size, packer, glyph_cache, glyphs_in_use }
    }

    /// The content type that the atlas holds.
    pub fn typ(&self) -> (typ: ContentType)
        ensures
            typ == self.spec_typ(),
    {
        self.typ
    }

    /// Side of the square surface, in pixels.
    pub fn texture_size(&self) -> (size: u32)
        ensures
            size == self.spec_texture_size(),
    {
        self.texture_size
    }

    /// Largest side that the hardware supports.
    pub fn max_texture_size(&self) -> (size: u32)
        ensures
            size == self.spec_max_texture_size(),
    {
        self.max_texture_size
    }

    /// Values stored per pixel of the surface.
    pub fn channel_count(&self) -> (count: usize)
        ensures
            count == self.spec_typ().channel_count(),
    {
        self.typ.channel_count()
    }

    /// Number of cached glyphs.
    pub fn len(&self) -> (len: usize)
        ensures
            len == self.entries().len(),
    {
        cache_len(&self.glyph_cache)
    }

    /// What is cached under `key`. Looking neither marks the glyph as
    /// used nor counts as a use in the eviction order.
    pub fn peek(&self, key: u64) -> (found: Option<GlyphData>)
        ensures
            match found {
                Some(data) => self.entries().contains((key, data)),
                None => !has_key(self.entries(), key),
            },
    {
        cache_peek(&self.glyph_cache, key)
    }

    /// Whether the frame being built has used the glyph `key`.
    pub fn is_in_use(&self, key: u64) -> (used: bool)
        ensures
            used == self.in_use().contains(key),
    {
        self.glyphs_in_use.contains(&key)
    }

    /// Forgets which glyphs the finished frame used. The cache itself is
    /// untouched, so glyphs stay resident across frames until pressure
    /// evicts them.
    pub fn clear_in_use(&mut self)
        requires
            old(self).wf(),
        ensures
            final(self).wf(),
            final(self).in_use() == Set::<u64>::empty(),
            same_room(*old(self), *final(self)),
            final(self).entries() == old(self).entries(),
            final(self).slots() == old(self).slots(),
            final(self).spec_texture_size() == old(self).spec_texture_size(),
            final(self).spec_max_texture_size() == old(self).spec_max_texture_size(),
            final(self).spec_typ() == old(self).spec_typ(),
    {
        self.glyphs_in_use.clear();
    }

    /// Evicts the least recently used glyph that holds a packer slot, and
    /// releases the slot, unless the frame being built has used that
    /// glyph. Says whether a glyph was evicted.
    pub fn evict_lru(&mut self) -> (evicted: bool)
        requires
            old(self).wf(),
        ensures
            final(self).wf(),
            final(self).in_use() == old(self).in_use(),
            final(self).spec_texture_size() == old(self).spec_texture_size(),
            final(self).spec_max_texture_size() == old(self).spec_max_texture_size(),
            final(self).spec_typ() == old(self).spec_typ(),
            evicted == can_evict(old(self).entries(), old(self).in_use()),
            !evicted ==> same_room(*old(self), *final(self)),
            final(self).entries() == evict_n(old(self).entries(), if evicted { 1nat } else { 0nat }),
            final(self).slots() == release_n(
                old(self).slots(),
                old(self).entries(),
                if evicted { 1nat } else { 0nat },
            ),
    {
        let entries = cache_entries(&self.glyph_cache);
        let mut index: usize = entries.len();
        while index > 0 && !entries[index - 1].1.in_atlas()
            invariant
                index <= entries.len(),
                forall|j: int| index <= j < entries.len() ==> !(#[trigger] entries@[j]).1.in_atlas(),
            decreases index,
        {
            index -= 1;
        }
        proof {
            lemma_candidate(entries@, index as int - 1);
            reveal_with_fuel(evict_n, 2);
            reveal_with_fuel(release_n, 2);
        }
        if index == 0 {
            return false;
        }
        let key: u64 = entries[index - 1].0;
        if self.glyphs_in_use.contains(&key) {
            return false;
        }
        let removed = cache_pop(&mut self.glyph_cache, key);
        proof {
            assert(entries@[index - 1].0 == key);
        }
        match removed {
            Some(data) => {
                proof {
                    lemma_remove_keeps(entries@, old(self).slots(), index as int - 1);
                }
                match data.cache_status {
                    GlyphCacheStatus::InAtlas { alloc_id, .. } => {
                        packer_deallocate(&mut self.packer, alloc_id);
                    },
                    GlyphCacheStatus::ZeroSized => {},
                }
                true
            },
            None => false,
        }
    }

    /// Decides what becomes of a request for room once the packer has
    /// answered it. A granted slot is the result. After a refusal the
    /// least recently used glyph that holds a slot is evicted, and the
    /// packer is to be asked again; but a glyph that the frame being
    /// built has used is never evicted, and the request is refused for
    /// good when the candidate is such a glyph or none is left.
    pub fn after_answer(&mut self, answer: Option<AtlasSlot>) -> (attempt: Attempt)
        requires
            old(self).wf(),
        ensures
            final(self).wf(),
            final(self).in_use() == old(self).in_use(),
            final(self).spec_texture_size() == old(self).spec_texture_size(),
            final(self).spec_max_texture_size() == old(self).spec_max_texture_size(),
            final(self).spec_typ() == old(self).spec_typ(),
            match answer {
                Some(slot) => attempt == Attempt::Granted(slot) && unchanged(
                    *old(self),
                    *final(self),
                ),
                None => if can_evict(old(self).entries(), old(self).in_use()) {
                    &&& attempt == Attempt::Again
                    &&& final(self).entries() == evict_n(old(self).entries(), 1)
                    &&& final(self).slots() == release_n(old(self).slots(), old(self).entries(), 1)
                } else {
                    attempt == Attempt::Refused && unchanged(*old(self), *final(self))
                },
            },
    {
        match answer {
            Some(slot) => Attempt::Granted(slot),
            None => if self.evict_lru() {
                Attempt::Again
            } else {
                Attempt::Refused
            },
        }
    }

    /// Tries to find room for a bitmap of the given size. The packer is
    /// asked first, and a slot that it grants is returned. While it has
    /// no room, the least recently used glyph that holds a slot is
    /// evicted and the packer is asked again; a glyph that the frame
    /// being built has used is never evicted, and the attempt ends
    /// without a slot when the next candidate is such a glyph or no
    /// candidate is left.
    pub fn try_alloc(&mut self, width: usize, height: usize) -> (slot: Option<AtlasSlot>)
        requires
            old(self).wf(),
        ensures
            final(self).wf(),
            final(self).in_use() == old(self).in_use(),
            final(self).spec_texture_size() == old(self).spec_texture_size(),
            final(self).spec_max_texture_size() == old(self).spec_max_texture_size(),
            final(self).spec_typ() == old(self).spec_typ(),
            final(self).entries().len() <= old(self).entries().len(),
            old(self).grants(requested(width), requested(height)) ==> slot is Some,
            final(self).entries().len() < old(self).entries().len() ==> !old(self).grants(
                requested(width),
                requested(height),
            ),
            slot is None ==> !final(self).grants(requested(width), requested(height)),
            evicted_on_refusal(
                *old(self),
                (old(self).entries().len() - final(self).entries().len()) as nat,
                requested(width),
                requested(height),
            ),
            forall|i: int|
                0 <= i < old(self).entries().len() && old(self).in_use().contains(
                    (#[trigger] old(self).entries()[i]).0,
                ) ==> final(self).entries().contains(old(self).entries()[i]),
            all_slots_in_use(old(self).entries(), old(self).in_use()) ==> final(self).entries()
                == old(self).entries(),
            ({
                let n = (old(self).entries().len() - final(self).entries().len()) as nat;
                let released = release_n(old(self).slots(), old(self).entries(), n);
                &&& evictable_n(old(self).entries(), old(self).in_use(), n)
                &&& final(self).entries() == evict_n(old(self).entries(), n)
                &&& slots_hold(final(self).entries(), released)
                &&& match slot {
                    Some(s) => {
                        &&& !released.contains_key(s.alloc_id)
                        &&& final(self).slots() == released.insert(
                            s.alloc_id,
                            (
                                s.x as int,
                                s.y as int,
                                requested(width) as int,
                                requested(height) as int,
                            ),
                        )
                    },
                    None => {
                        &&& final(self).slots() == released
                        &&& !can_evict(final(self).entries(), final(self).in_use())
                    },
                }
            }),
    {
        let w: i32 = #[verifier::truncate] (width as i32);
        let h: i32 = #[verifier::truncate] (height as i32);
        let ghost mut n: nat = 0;
        let ghost mut trail: Seq<GlyphAtlas> = Seq::empty();
        loop
            invariant
                self.wf(),
                self.in_use() == old(self).in_use(),
                self.spec_texture_size() == old(self).spec_texture_size(),
                self.spec_max_texture_size() == old(self).spec_max_texture_size(),
                self.spec_typ() == old(self).spec_typ(),
                w == requested(width),
                h == requested(height),
                n == 0 ==> *self == *old(self),
                n > 0 ==> !old(self).grants(w, h),
                trail.len() == n,
                n > 0 ==> unchanged(*old(self), trail[0]),
                refused_each_time(trail, old(self).entries(), old(self).slots(), w, h),
                self.entries().len() + n == old(self).entries().len(),
                evictable_n(old(self).entries(), old(self).in_use(), n),
                self.entries() == evict_n(old(self).entries(), n),
                self.slots() == release_n(old(self).slots(), old(self).entries(), n),
            decreases self.entries().len(),
        {
            proof {
                lemma_evictions_spare_all(old(self).entries(), old(self).in_use(), n);
                if all_slots_in_use(old(self).entries(), old(self).in_use()) {
                    lemma_no_eviction_when_all_in_use(old(self).entries(), old(self).in_use(), n);
                }
            }
            let ghost asked = self.grants(w, h);
            let ghost here = *self;
            let answer = match packer_allocate(&mut self.packer, w, h) {
                Some((id, x, y)) => Some(AtlasSlot { alloc_id: id, x: x as u16, y: y as u16 }),
                None => None,
            };
            let ghost before = self.entries();
            match self.after_answer(answer) {
                Attempt::Granted(slot) => {
                    return Some(slot);
                },
                Attempt::Refused => {
                    return None;
                },
                Attempt::Again => {},
            }
            proof {
                reveal_with_fuel(evict_n, 2);
                reveal_with_fuel(release_n, 2);
                assert(!asked);
                assert(self.entries() == evict_one(before));
                assert(lru_candidate(before) >= 0);
                lemma_candidate_bounds(before);
                let longer = trail.push(here);
                assert forall|j: int| 0 <= j < longer.len() implies {
                    &&& !(#[trigger] longer[j]).grants(w, h)
                    &&& longer[j].entries() == evict_n(old(self).entries(), j as nat)
                    &&& longer[j].slots() == release_n(
                        old(self).slots(),
                        old(self).entries(),
                        j as nat,
                    )
                } by {
                    if j < trail.len() {
                        assert(longer[j] == trail[j]);
                    }
                }
                trail = longer;
                n = n + 1;
            }
        }
    }

    /// Doubles the side of the surface, up to the hardware limit, and
    /// says whether it grew. Every cached glyph keeps its slot and its
    /// coordinates, so the bitmaps can be written again to the larger
    /// texture where they were. An atlas already at the limit stays as it
    /// is and is full for good.
    pub fn grow(&mut self) -> (grown: bool)
        requires
            old(self).wf(),
        ensures
            final(self).wf(),
            grown == (old(self).spec_texture_size() < old(self).spec_max_texture_size()),
            !grown ==> same_room(*old(self), *final(self)),
            final(self).spec_texture_size() == grown_size(
                old(self).spec_texture_size(),
                old(self).spec_max_texture_size(),
            ),
            final(self).entries() == old(self).entries(),
            final(self).slots() == old(self).slots(),
            final(self).in_use() == old(self).in_use(),
            final(self).spec_max_texture_size() == old(self).spec_max_texture_size(),
            final(self).spec_typ() == old(self).spec_typ(),
    {
        if self.texture_size >= self.max_texture_size {
            return false;
        }
        let doubled: u32 = self.texture_size * GROWTH_FACTOR;
        let new_size: u32 = if doubled < self.max_texture_size {
            doubled
        } else {
            self.max_texture_size
        };
        packer_grow(&mut self.packer, new_size);
        self.texture_size = new_size;
        true
    }

    /// The glyphs whose bitmaps live on the surface, in cache order, each
    /// with its key and the corner of its slot: what has to be written
    /// again after the texture was replaced.
    pub fn resident_glyphs(&self) -> (glyphs: Vec<(u64, u16, u16)>)
        ensures
            glyphs@ == resident(self.entries()),
    {
        let entries = cache_entries(&self.glyph_cache);
        let mut glyphs: Vec<(u64, u16, u16)> = Vec::new();
        let mut index: usize = 0;
        while index < entries.len()
            invariant
                index <= entries.len(),
                glyphs@ == resident(entries@.take(index as int)),
            decreases entries.len() - index,
        {
            proof {
                assert(entries@.take(index as int + 1).drop_last() == entries@.take(index as int));
            }
            match entries[index].1.cache_status {
                GlyphCacheStatus::InAtlas { x, y, .. } => {
                    glyphs.push((entries[index].0, x, y));
                },
                GlyphCacheStatus::ZeroSized => {},
            }
            index += 1;
        }
        proof {
            assert(entries@.take(entries.len() as int) == entries@);
        }
        glyphs
    }

    /// Makes sure that the glyph `key` is cached and marks it as used by
    /// this frame. A glyph that is cached already is found as by
    /// `lookup`. Any other is cached with the metrics that the rasterizer
    /// reported.
    ///
    /// A glyph without pixels takes no slot. Any other glyph needs one:
    /// the atlas evicts and grows until the packer grants it, and gives up
    /// only when it stands at the hardware limit with nothing left that
    /// may be evicted. Nothing is cached then. Nothing is cached either
    /// when the cache cannot take one entry more.
    pub fn place(&mut self, key: u64, width: u32, height: u32, top: i32, left: i32) -> (placed:
        Option<GlyphData>)
        requires
            old(self).wf(),
        ensures
            final(self).wf(),
            if has_key(old(self).entries(), key) {
                lookup_outcome(*old(self), *final(self), key, placed)
            } else {
                place_outcome(*old(self), *final(self), key, width, height, top, left, placed)
            },
    {
        match self.lookup(key) {
            Some(data) => Some(data),
            None => self.place_new(key, width, height, top, left),
        }
    }

    /// Caches a glyph that is not cached yet.
    fn place_new(&mut self, key: u64, width: u32, height: u32, top: i32, left: i32) -> (placed:
        Option<GlyphData>)
        requires
            old(self).wf(),
            !has_key(old(self).entries(), key),
        ensures
            final(self).wf(),
            place_outcome(*old(self), *final(self), key, width, height, top, left, placed),
    {
        let ghost cached = self.entries();
        let ghost used = self.in_use();
        let ghost held = self.slots();
        proof {
            assert(refused_each_time(
                Seq::<GlyphAtlas>::empty(),
                cached,
                held,
                requested(width as usize),
                requested(height as usize),
            ));
        }
        if cache_len(&self.glyph_cache) == usize::MAX {
            return None;
        }
        let mut cache_status = GlyphCacheStatus::ZeroSized;
        let ghost mut n: nat = 0;
        if width > 0 && height > 0 {
            let mut found = self.try_alloc(width as usize, height as usize);
            proof {
                n = (cached.len() - self.entries().len()) as nat;
            }
            while found.is_none()
                invariant
                    self.wf(),
                    cached == old(self).entries(),
                    used == old(self).in_use(),
                    held == old(self).slots(),
                    cached.len() < usize::MAX,
                    width > 0 && height > 0,
                    self.in_use() == used,
                    self.spec_typ() == old(self).spec_typ(),
                    self.spec_max_texture_size() == old(self).spec_max_texture_size(),
                    grows_to(
                        old(self).spec_texture_size(),
                        old(self).spec_max_texture_size(),
                        self.spec_texture_size(),
                    ),
                    self.entries().len() + n == cached.len(),
                    evictable_n(cached, used, n),
                    self.entries() == evict_n(cached, n),
                    slots_hold(self.entries(), release_n(held, cached, n)),
                    evicted_on_refusal(
                        *old(self),
                        n,
                        requested(width as usize),
                        requested(height as usize),
                    ),
                    !old(self).grants(requested(width as usize), requested(height as usize))
                        || (found is Some && n == 0 && self.spec_texture_size() == old(
                        self,
                    ).spec_texture_size()),
                    match found {
                        Some(s) => {
                            &&& !release_n(held, cached, n).contains_key(s.alloc_id)
                            &&& self.slots() == release_n(held, cached, n).insert(
                                s.alloc_id,
                                (
                                    s.x as int,
                                    s.y as int,
                                    requested(width as usize) as int,
                                    requested(height as usize) as int,
                                ),
                            )
                        },
                        None => {
                            &&& self.slots() == release_n(held, cached, n)
                            &&& !can_evict(self.entries(), used)
                            &&& !self.grants(
                                requested(width as usize),
                                requested(height as usize),
                            )
                        },
                    },
                decreases self.spec_max_texture_size() - self.spec_texture_size(),
            {
                let ghost size = self.spec_texture_size();
                if !self.grow() {
                    return None;
                }
                proof {
                    lemma_grows_further(
                        old(self).spec_texture_size(),
                        old(self).spec_max_texture_size(),
                        size,
                    );
                }
                let ghost count = self.entries().len();
                found = self.try_alloc(width as usize, height as usize);
                proof {
                    let more = (count - self.entries().len()) as nat;
                    lemma_cannot_evict(evict_n(cached, n), used, more);
                    lemma_evictions_compose(cached, used, held, n, more);
                    n = n + more;
                }
            }
            let slot = found.unwrap();
            cache_status = GlyphCacheStatus::InAtlas {
                x: slot.x,
                y: slot.y,
                content_type: self.typ,
                alloc_id: slot.alloc_id,
            };
            proof {
                let rect = self.slots()[slot.alloc_id];
                assert(self.slots().contains_key(slot.alloc_id));
                assert(0 < rect.2 && rect.0 + rect.2 <= self.spec_texture_size());
                assert(0 < rect.3 && rect.1 + rect.3 <= self.spec_texture_size());
                lemma_positive_dimension(width);
                lemma_positive_dimension(height);
            }
        }
        self.glyphs_in_use.insert(key);
        let data = GlyphData {
            width: #[verifier::truncate] (width as u16),
            height: #[verifier::truncate] (height as u16),
            top: #[verifier::truncate] (top as i16),
            left: #[verifier::truncate] (left as i16),
            cache_status,
        };
        proof {
            lemma_evictions_keep_absent(cached, used, n, key);
        }
        let ghost rest = self.entries();
        let stored = cache_insert(&mut self.glyph_cache, key, data);
        proof {
            lemma_front_keeps(rest, release_n(held, cached, n), key, data);
        }
        Some(stored)
    }

    /// Looks the glyph `key` up. A hit marks the glyph as used by this
    /// frame and as the most recently used entry; a miss changes nothing.
    pub fn lookup(&mut self, key: u64) -> (found: Option<GlyphData>)
        requires
            old(self).wf(),
        ensures
            final(self).wf(),
            lookup_outcome(*old(self), *final(self), key, found),
    {
        let found = cache_get(&mut self.glyph_cache, key);
        if found.is_some() {
            self.glyphs_in_use.insert(key);
            proof {
                let before = old(self).entries();
                let i = choose|i: int|
                    0 <= i < before.len() && #[trigger] before[i] == (key, found.unwrap())
                        && self.entries() == promoted(before, i);
                lemma_promoted_keeps(before, old(self).slots(), i);
            }
        }
        found
    }
}

/// Touching an entry keeps keys distinct and slots held.
pub proof fn lemma_promoted_keeps(
    entries: Seq<(u64, GlyphData)>,
    slots: Map<u32, (int, int, int, int)>,
    index: int,
)
    requires
        0 <= index < entries.len(),
        distinct_keys(entries),
        slots_hold(entries, slots),
    ensures
        distinct_keys(promoted(entries, index)),
        slots_hold(promoted(entries, index), slots),
        promoted(entries, index).len() == entries.len(),
{
    let after = promoted(entries, index);
    assert forall|i: int| 0 <= i < after.len() implies #[trigger] after[i] == entries[if i == 0 {
        index
    } else if i <= index {
        i - 1
    } else {
        i
    }] by {}
}

/// The candidate, when there is one, is an entry that holds a slot.
pub proof fn lemma_candidate_bounds(entries: Seq<(u64, GlyphData)>)
    ensures
        -1 <= lru_candidate(entries) < entries.len(),
        lru_candidate(entries) >= 0 ==> entries[lru_candidate(entries)].1.in_atlas(),
        forall|j: int|
            lru_candidate(entries) < j < entries.len() ==> !(#[trigger] entries[j]).1.in_atlas(),
    decreases entries.len(),
{
    if entries.len() > 0 && !entries.last().1.in_atlas() {
        let front = entries.drop_last();
        lemma_candidate_bounds(front);
        assert forall|j: int| lru_candidate(entries) < j < entries.len() implies !(
        #[trigger] entries[j]).1.in_atlas() by {
            if j < front.len() {
                assert(front[j] == entries[j]);
            }
        }
    }
}

/// An index is the candidate when its entry holds a slot and no later
/// entry does; `-1` is when no entry holds one.
pub proof fn lemma_candidate(entries: Seq<(u64, GlyphData)>, index: int)
    requires
        -1 <= index < entries.len(),
        index >= 0 ==> entries[index].1.in_atlas(),
        forall|j: int| index < j < entries.len() ==> !(#[trigger] entries[j]).1.in_atlas(),
    ensures
        lru_candidate(entries) == index,
    decreases entries.len(),
{
    if entries.len() > 0 && !entries.last().1.in_atlas() {
        lemma_candidate(entries.drop_last(), index);
    }
}

/// Dropping an entry and releasing its slot keeps keys distinct and the
/// remaining slots held.
pub proof fn lemma_remove_keeps(
    entries: Seq<(u64, GlyphData)>,
    slots: Map<u32, (int, int, int, int)>,
    index: int,
)
    requires
        0 <= index < entries.len(),
        distinct_keys(entries),
        slots_hold(entries, slots),
    ensures
        distinct_keys(entries.remove(index)),
        slots_hold(entries.remove(index), slots),
        entries[index].1.in_atlas() ==> slots_hold(
            entries.remove(index),
            slots.remove(slot_id(entries[index].1)),
        ),
{
    let after = entries.remove(index);
    assert forall|i: int| 0 <= i < after.len() implies #[trigger] after[i] == entries[if i
        < index {
        i
    } else {
        i + 1
    }] by {}
}

/// A dimension that is positive as an `i32` is the same number there.
pub proof fn lemma_positive_dimension(side: u32)
    ensures
        0 < requested(side as usize) ==> requested(side as usize) == side,
{
    assert(side as usize == side);
    assert(#[verifier::truncate] (side as i32) > 0 ==> side < 0x8000_0000u32) by (bit_vector);
}

/// One more growth step extends a chain of growth steps.
pub proof fn lemma_grows_further(size: u32, max_texture_size: u32, target: u32)
    requires
        grows_to(size, max_texture_size, target),
        0 < size,
        target < max_texture_size,
    ensures
        grows_to(size, max_texture_size, grown_size(target, max_texture_size)),
        size <= target,
    decreases max_texture_size - size,
{
    let next = grown_size(target, max_texture_size);
    if size != target {
        lemma_grows_further(grown_size(size, max_texture_size), max_texture_size, target);
    } else {
        assert(grows_to(next, max_texture_size, next));
    }
}

/// Evictions in two runs are evictions in one: `n` of them followed by
/// `more` are `n + more`, for the cache, for what may be evicted and for
/// the slots released.
pub proof fn lemma_evictions_compose(
    entries: Seq<(u64, GlyphData)>,
    in_use: Set<u64>,
    slots: Map<u32, (int, int, int, int)>,
    n: nat,
    more: nat,
)
    ensures
        evict_n(evict_n(entries, n), more) == evict_n(entries, n + more),
        release_n(release_n(slots, entries, n), evict_n(entries, n), more) == release_n(
            slots,
            entries,
            n + more,
        ),
        evictable_n(entries, in_use, n) && evictable_n(evict_n(entries, n), in_use, more)
            ==> evictable_n(entries, in_use, n + more),
    decreases more,
{
    if more > 0 {
        lemma_evictions_compose(entries, in_use, slots, n, (more - 1) as nat);
        assert(n + more - 1 == n + (more - 1) as nat);
    }
}

/// Where nothing may be evicted, a run of evictions is empty.
pub proof fn lemma_cannot_evict(entries: Seq<(u64, GlyphData)>, in_use: Set<u64>, n: nat)
    requires
        evictable_n(entries, in_use, n),
        !can_evict(entries, in_use),
    ensures
        n == 0,
    decreases n,
{
    if n > 1 {
        lemma_cannot_evict(entries, in_use, (n - 1) as nat);
    } else if n == 1 {
        assert(evict_n(entries, 0) == entries);
    }
}

/// Evictions bring no key into the cache.
pub proof fn lemma_evictions_keep_absent(
    entries: Seq<(u64, GlyphData)>,
    in_use: Set<u64>,
    n: nat,
    key: u64,
)
    requires
        evictable_n(entries, in_use, n),
        !has_key(entries, key),
    ensures
        !has_key(evict_n(entries, n), key),
        evict_n(entries, n).len() + n == entries.len(),
    decreases n,
{
    if n > 0 {
        lemma_evictions_keep_absent(entries, in_use, (n - 1) as nat, key);
        let before = evict_n(entries, (n - 1) as nat);
        let c = lru_candidate(before);
        lemma_candidate_bounds(before);
        let after = before.remove(c);
        assert forall|i: int| 0 <= i < after.len() implies (#[trigger] after[i]).0 != key by {
            assert(after[i] == before[if i < c {
                i
            } else {
                i + 1
            }]);
        }
    }
}

/// A new entry at the front, under a key that was absent and with a slot
/// that no entry owned, keeps keys distinct and slots held.
pub proof fn lemma_front_keeps(
    entries: Seq<(u64, GlyphData)>,
    slots: Map<u32, (int, int, int, int)>,
    key: u64,
    data: GlyphData,
)
    requires
        distinct_keys(entries),
        slots_hold(entries, slots),
        !has_key(entries, key),
        data.in_atlas() ==> !slots.contains_key(slot_id(data)),
    ensures
        distinct_keys(seq![(key, data)] + entries),
        data.in_atlas() ==> slots_hold(
            seq![(key, data)] + entries,
            slots.insert(slot_id(data), slot_rect(data)),
        ),
        !data.in_atlas() ==> slots_hold(seq![(key, data)] + entries, slots),
{
    let after = seq![(key, data)] + entries;
    assert forall|i: int| 0 < i < after.len() implies #[trigger] after[i] == entries[i - 1] by {}
    assert(after[0] == (key, data));
}

/// Eviction never takes a glyph that the frame being built has used:
/// such a glyph is still cached, as it was, after any run of evictions.
pub proof fn lemma_eviction_spares_in_use(
    entries: Seq<(u64, GlyphData)>,
    in_use: Set<u64>,
    n: nat,
    index: int,
)
    requires
        evictable_n(entries, in_use, n),
        0 <= index < entries.len(),
        in_use.contains(entries[index].0),
    ensures
        evict_n(entries, n).contains(entries[index]),
    decreases n,
{
    if n == 0 {
        assert(evict_n(entries, n)[index] == entries[index]);
    } else {
        lemma_eviction_spares_in_use(entries, in_use, (n - 1) as nat, index);
        let before = evict_n(entries, (n - 1) as nat);
        let c = lru_candidate(before);
        lemma_candidate_bounds(before);
        let at = choose|j: int| 0 <= j < before.len() && before[j] == entries[index];
        let after = before.remove(c);
        assert(at != c);
        assert(after[if at < c {
            at
        } else {
            at - 1
        }] == entries[index]);
    }
}

/// The same for every used glyph at once.
pub proof fn lemma_evictions_spare_all(entries: Seq<(u64, GlyphData)>, in_use: Set<u64>, n: nat)
    requires
        evictable_n(entries, in_use, n),
    ensures
        forall|i: int|
            0 <= i < entries.len() && in_use.contains((#[trigger] entries[i]).0) ==> evict_n(
                entries,
                n,
            ).contains(entries[i]),
{
    assert forall|i: int|
        0 <= i < entries.len() && in_use.contains((#[trigger] entries[i]).0) implies evict_n(
        entries,
        n,
    ).contains(entries[i]) by {
        lemma_eviction_spares_in_use(entries, in_use, n, i);
    }
}

/// When the frame being built has used every glyph that holds a slot,
/// nothing may be evicted: a request for room that the packer cannot
/// grant ends without a slot and with the cache as it was.
pub proof fn lemma_no_eviction_when_all_in_use(
    entries: Seq<(u64, GlyphData)>,
    in_use: Set<u64>,
    n: nat,
)
    requires
        evictable_n(entries, in_use, n),
        all_slots_in_use(entries, in_use),
    ensures
        n == 0,
        !can_evict(entries, in_use),
    decreases n,
{
    lemma_candidate_bounds(entries);
    if n > 0 {
        if n > 1 {
            lemma_no_eviction_when_all_in_use(entries, in_use, (n - 1) as nat);
        } else {
            assert(evict_n(entries, 0) == entries);
        }
    }
}

/// No cached bitmap overwrites another, and each lies on the surface:
/// the rectangles of two glyphs that hold slots share no pixel.
pub proof fn lemma_cached_glyphs_apart(atlas: GlyphAtlas, i: int, j: int)
    requires
        atlas.wf(),
        0 <= i < j < atlas.entries().len(),
        atlas.entries()[i].1.in_atlas(),
        atlas.entries()[j].1.in_atlas(),
    ensures
        apart(slot_rect(atlas.entries()[i].1), slot_rect(atlas.entries()[j].1)),
        slot_rect(atlas.entries()[i].1).0 + slot_rect(atlas.entries()[i].1).2
            <= atlas.spec_texture_size(),
        slot_rect(atlas.entries()[i].1).1 + slot_rect(atlas.entries()[i].1).3
            <= atlas.spec_texture_size(),
{
    let a = slot_id(atlas.entries()[i].1);
    let b = slot_id(atlas.entries()[j].1);
    assert(atlas.slots().contains_key(a) && atlas.slots().contains_key(b));
    assert(atlas.slots()[a] == slot_rect(atlas.entries()[i].1));
    assert(atlas.slots()[b] == slot_rect(atlas.entries()[j].1));
}

/// Whether no key is cached in both of two caches.
pub open spec fn keys_apart(a: Seq<(u64, GlyphData)>, b: Seq<(u64, GlyphData)>) -> bool {
    forall|key: u64| !(#[trigger] has_key(a, key) && #[trigger] has_key(b, key))
}

/// Touching an entry changes no key.
pub proof fn lemma_promoted_same_keys(entries: Seq<(u64, GlyphData)>, index: int)
    requires
        0 <= index < entries.len(),
    ensures
        forall|key: u64| #[trigger] has_key(promoted(entries, index), key) ==> has_key(entries, key),
        promoted(entries, index)[0] == entries[index],
{
    let after = promoted(entries, index);
    assert forall|key: u64| #[trigger] has_key(after, key) implies has_key(entries, key) by {
        let i = choose|i: int| 0 <= i < after.len() && (#[trigger] after[i]).0 == key;
        let from = if i == 0 {
            index
        } else if i <= index {
            i - 1
        } else {
            i
        };
        assert(after[i] == entries[from]);
        assert(entries[from].0 == key);
    }
}

/// Evictions and one new entry bring no key into the cache but the new
/// one.
pub proof fn lemma_placed_keys(
    entries: Seq<(u64, GlyphData)>,
    in_use: Set<u64>,
    n: nat,
    key: u64,
    data: GlyphData,
)
    requires
        evictable_n(entries, in_use, n),
    ensures
        forall|other: u64| #[trigger] has_key(evict_n(entries, n), other) ==> has_key(entries, other),
        forall|other: u64|
            #[trigger] has_key(seq![(key, data)] + evict_n(entries, n), other) ==> other == key
                || has_key(entries, other),
{
    let rest = evict_n(entries, n);
    let after = seq![(key, data)] + rest;
    assert forall|other: u64| #[trigger] has_key(rest, other) implies has_key(entries, other) by {
        if !has_key(entries, other) {
            lemma_evictions_keep_absent(entries, in_use, n, other);
        }
    }
    assert forall|other: u64| #[trigger] has_key(after, other) implies other == key || has_key(
        entries,
        other,
    ) by {
        let i = choose|i: int| 0 <= i < after.len() && (#[trigger] after[i]).0 == other;
        if i > 0 {
            assert(after[i] == rest[i - 1]);
            assert(rest[i - 1].0 == other);
            assert(has_key(rest, other));
        }
    }
}

} // verus!
