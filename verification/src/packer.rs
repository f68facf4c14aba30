//! The rectangle packer behind a glyph atlas, reached through contracts
//! over the set of slots it currently holds.

use vstd::prelude::*;

verus! {

/// `etagere::BucketedAtlasAllocator`, carried as it is: nothing is known
/// of a packer but what the functions below say.
#[verifier::external_type_specification]
#[verifier::external_body]
pub struct ExBucketedAtlasAllocator(etagere::BucketedAtlasAllocator);

/// Largest side, in pixels, that a packer may be given. The packer counts
/// its occupied area in an `i32`, so the whole surface must fit in one.
pub const MAX_PACKER_SIDE: u32 = 46340;

/// The slots that are allocated and not yet released. Each handle is
/// mapped to the rectangle that was asked for, where it was granted:
/// left edge, top edge, width and height.
pub uninterp spec fn packer_slots(packer: etagere::BucketedAtlasAllocator) -> Map<
    u32,
    (int, int, int, int),
>;

/// Width and height of the surface that the packer manages.
pub uninterp spec fn packer_size(packer: etagere::BucketedAtlasAllocator) -> (int, int);

/// Whether the packer, as it stands, grants a request of the given size.
pub uninterp spec fn packer_grants(
    packer: etagere::BucketedAtlasAllocator,
    width: int,
    height: int,
) -> bool;

/// The slots of a packer that holds none.
pub open spec fn no_slots() -> Map<u32, (int, int, int, int)> {
    Map::empty()
}

/// Whether two rectangles, each given by left edge, top edge, width and
/// height, share no pixel.
pub open spec fn apart(a: (int, int, int, int), b: (int, int, int, int)) -> bool {
    ||| a.0 + a.2 <= b.0
    ||| b.0 + b.2 <= a.0
    ||| a.1 + a.3 <= b.1
    ||| b.1 + b.3 <= a.1
}

/// `etagere::BucketedAtlasAllocator::new`: a packer over a square of the
/// given side, holding no slot.
#[verifier::external_body]
pub(crate) fn packer_new(side: u32) -> (packer: etagere::BucketedAtlasAllocator)
    requires
        side <= MAX_PACKER_SIDE,
    ensures
        packer_slots(packer) == no_slots(),
        packer_size(packer) == (side as int, side as int),
{
    etagere::BucketedAtlasAllocator::new(etagere::size2(side as i32, side as i32))
}

/// `etagere::BucketedAtlasAllocator::allocate`: whether a slot is granted
/// depends on the packer as it stands and on the size alone. On success
/// the packer holds one slot more, under a handle that no held slot had;
/// a request is only granted when it is non-empty, and the granted
/// rectangle of the requested size lies on the surface and overlaps no
/// rectangle of a held slot. On failure the packer is as it was, so it
/// would refuse the same request again. The surface keeps its size
/// either way.
#[verifier::external_body]
pub(crate) fn packer_allocate(
    packer: &mut etagere::BucketedAtlasAllocator,
    width: i32,
    height: i32,
) -> (slot: Option<(u32, i32, i32)>)
    ensures
        packer_size(*final(packer)) == packer_size(*old(packer)),
        slot is Some <==> packer_grants(*old(packer), width as int, height as int),
        match slot {
            Some((id, x, y)) => {
                &&& !packer_slots(*old(packer)).contains_key(id)
                &&& packer_slots(*final(packer)) == packer_slots(*old(packer)).insert(
                    id,
                    (x as int, y as int, width as int, height as int),
                )
                &&& 0 < width
                &&& 0 < height
                &&& 0 <= x
                &&& 0 <= y
                &&& x + width <= packer_size(*old(packer)).0
                &&& y + height <= packer_size(*old(packer)).1
                &&& forall|held: u32|
                    packer_slots(*old(packer)).contains_key(held) ==> apart(
                        #[trigger] packer_slots(*old(packer))[held],
                        (x as int, y as int, width as int, height as int),
                    )
            },
            None => {
                &&& packer_slots(*final(packer)) == packer_slots(*old(packer))
                &&& !packer_grants(*final(packer), width as int, height as int)
            },
        },
{
    match packer.allocate(etagere::size2(width, height)) {
        Some(a) => Some((a.id.serialize(), a.rectangle.min.x, a.rectangle.min.y)),
        None => None,
    }
}

/// `etagere::BucketedAtlasAllocator::deallocate`: releases the slot held
/// under `id` and leaves every other slot, and the surface size, as it was.
/// The packer panics on a handle it does not hold, so the handle must be held.
#[verifier::external_body]
pub(crate) fn packer_deallocate(packer: &mut etagere::BucketedAtlasAllocator, id: u32)
    requires
        packer_slots(*old(packer)).contains_key(id),
    ensures
        packer_slots(*final(packer)) == packer_slots(*old(packer)).remove(id),
        packer_size(*final(packer)) == packer_size(*old(packer)),
{
    packer.deallocate(etagere::AllocId::deserialize(id))
}

/// `etagere::BucketedAtlasAllocator::grow`: enlarges the surface to a
/// square of the given side. Every held slot stays under its handle at
/// its corner. The packer panics when asked to shrink.
#[verifier::external_body]
pub(crate) fn packer_grow(packer: &mut etagere::BucketedAtlasAllocator, side: u32)
    requires
        side <= MAX_PACKER_SIDE,
        packer_size(*old(packer)).0 <= side,
        packer_size(*old(packer)).1 <= side,
    ensures
        packer_slots(*final(packer)) == packer_slots(*old(packer)),
        packer_size(*final(packer)) == (side as int, side as int),
{
    packer.grow(etagere::size2(side as i32, side as i32))
}

} // verus!
