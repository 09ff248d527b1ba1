//! The hue circle in six sectors: which channel of a colour carries the
//! chroma, which the intermediate amount, and which nothing.
//!
//! Going round the circle from red, the chroma moves from red to green to
//! blue and back to red, two sectors for each, and the intermediate amount
//! goes to the channel that the chroma comes from or moves to. The amounts
//! themselves are the caller's: this module places them and computes
//! nothing with them.

use vstd::prelude::*;

verus! {

/// The channels red, green and blue for a sector of the hue circle. Sector 0
/// begins at red; every number past 4 counts as the last sector, which ends
/// at red again.
pub open spec fn sector_channels<S>(sector: u8, chroma: S, mid: S, zero: S) -> (S, S, S) {
    if sector == 0 {
        (chroma, mid, zero)
    } else if sector == 1 {
        (mid, chroma, zero)
    } else if sector == 2 {
        (zero, chroma, mid)
    } else if sector == 3 {
        (zero, mid, chroma)
    } else if sector == 4 {
        (mid, zero, chroma)
    } else {
        (chroma, zero, mid)
    }
}

/// Places the chroma, the intermediate amount and zero on red, green and
/// blue, for a sector of the hue circle.
pub fn place_channels<S>(sector: u8, chroma: S, mid: S, zero: S) -> (rgb: (S, S, S))
    ensures
        rgb == sector_channels(sector, chroma, mid, zero),
{
    match sector {
        0 => (chroma, mid, zero),
        1 => (mid, chroma, zero),
        2 => (zero, chroma, mid),
        3 => (zero, mid, chroma),
        4 => (mid, zero, chroma),
        _ => (chroma, zero, mid),
    }
}

/// At both ends of the hue circle red carries the chroma: the first sector
/// begins at red and the last one comes back to it.
pub proof fn lemma_hue_wraps_to_red<S>(chroma: S, mid: S, zero: S)
    ensures
        sector_channels(0, chroma, mid, zero).0 == chroma,
        sector_channels(5, chroma, mid, zero).0 == chroma,
        sector_channels(0, chroma, mid, zero).2 == zero,
        sector_channels(5, chroma, mid, zero).1 == zero,
{
}

/// In every sector each of the three amounts is placed on exactly one
/// channel.
pub proof fn lemma_channels_are_a_permutation<S>(sector: u8, chroma: S, mid: S, zero: S)
    ensures
        ({
            let rgb = sector_channels(sector, chroma, mid, zero);
            seq![rgb.0, rgb.1, rgb.2].to_multiset() == seq![chroma, mid, zero].to_multiset()
        }),
{
    let rgb = sector_channels(sector, chroma, mid, zero);
    let placed = seq![rgb.0, rgb.1, rgb.2];
    let given = seq![chroma, mid, zero];
    let e = Seq::<S>::empty();
    assert(placed =~= e.push(rgb.0).push(rgb.1).push(rgb.2));
    assert(given =~= e.push(chroma).push(mid).push(zero));
    broadcast use vstd::seq_lib::group_to_multiset_ensures;
    assert(placed.to_multiset() =~= given.to_multiset());
}

} // verus!
