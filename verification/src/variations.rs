//! Whether what a font holds on its variations can be read.

use crate::bytes::{fits, read16, read32, u16_at, u32_at};
use vstd::prelude::*;

verus! {

/// Whether the regions of a variation store begin where it fits.
pub open spec fn store_sound(d: Seq<u8>, at: int) -> bool {
    u16_at(d, at) == 1 ==> fits(at + u32_at(d, at + 2) + 2)
}

pub(crate) fn sound_store(d: &[u8], at: u64) -> (r: bool)
    requires
        at <= 0xFFFF_FFFF_FFFF,
    ensures
        r == store_sound(d@, at as int),
{
    read16(d, at) != 1 || at + read32(d, at + 2) + 2 <= 0xFFFF_FFFF
}

/// Whether the regions that a set of deltas names can be found by 16 bits, with 64
/// axes.
pub open spec fn regions_sound(d: Seq<u8>, p: int, axes: int, n: int) -> bool {
    forall|k: int| 0 <= k < n ==> #[trigger] u16_at(d, p + 6 + 2 * k) * axes <= 0xFFFF - 64
}

fn sound_regions(d: &[u8], p: u64, axes: u64, n: u64) -> (r: bool)
    requires
        p <= 0xFFFF_FFFF_FFFF,
        axes <= 0xFFFF,
        n <= 0xFFFF,
    ensures
        r == regions_sound(d@, p as int, axes as int, n as int),
{
    let mut k: u64 = 0;
    while k < n
        invariant
            p <= 0xFFFF_FFFF_FFFF,
            axes <= 0xFFFF,
            k <= n <= 0xFFFF,
            regions_sound(d@, p as int, axes as int, k as int),
        decreases n - k,
    {
        let region: u64 = read16(d, p + 6 + 2 * k);
        assert(0 <= region * axes <= 0xFFFE_0001) by (nonlinear_arith)
            requires
                0 <= region <= 0xFFFF,
                0 <= axes <= 0xFFFF,
        ;
        if region * axes > 0xFFFF - 64 {
            assert(!regions_sound(d@, p as int, axes as int, n as int));
            return false;
        }
        k = k + 1;
    }
    true
}

/// Whether a set of deltas can be read: the length of a row can be counted in 16
/// bits, the rows end where it fits, and the regions can be found.
pub open spec fn delta_sound(d: Seq<u8>, p: int, axes: int) -> bool {
    let rows = u16_at(d, p);
    let regions = u16_at(d, p + 4);
    let columns = u16_at(d, p + 2) % 0x8000 + regions;
    let row = if u16_at(d, p + 2) < 0x8000 {
        columns
    } else {
        2 * columns
    };
    &&& row <= 0xFFFF
    &&& fits(p + 10 + 2 * regions + rows * row)
    &&& p + 6 + 2 * regions <= d.len() ==> regions_sound(d, p, axes, regions)
}

fn sound_delta(d: &[u8], p: u64, axes: u64) -> (r: bool)
    requires
        p <= 0xFFFF_FFFF_FFFF,
        axes <= 0xFFFF,
    ensures
        r == delta_sound(d@, p as int, axes as int),
{
    let rows: u64 = read16(d, p);
    let words: u64 = read16(d, p + 2);
    let regions: u64 = read16(d, p + 4);
    let columns: u64 = words % 0x8000 + regions;
    let row: u64 = if words < 0x8000 {
        columns
    } else {
        2 * columns
    };
    if row > 0xFFFF {
        return false;
    }
    assert(0 <= rows * row <= 0xFFFE_0001) by (nonlinear_arith)
        requires
            0 <= rows <= 0xFFFF,
            0 <= row <= 0xFFFF,
    ;
    if p + 10 + 2 * regions + rows * row > 0xFFFF_FFFF {
        return false;
    }
    if p + 6 + 2 * regions > d.len() as u64 {
        return true;
    }
    sound_regions(d, p, axes, regions)
}

/// Whether the set `k` of the deltas of a variation store can be read.
pub open spec fn set_sound(d: Seq<u8>, at: int, k: int) -> bool {
    delta_sound(d, at + u32_at(d, at + 8 + 4 * k), u16_at(d, at + u32_at(d, at + 2)))
}

/// Whether the variations of metrics (`MVAR`) can be read: the store, and all its
/// deltas.
pub open spec fn metrics_sound(d: Seq<u8>) -> bool {
    let at = u16_at(d, 10);
    &&& store_sound(d, at)
    &&& forall|k: int| 0 <= k < u16_at(d, at + 6) ==> #[trigger] set_sound(d, at, k)
}

pub(crate) fn sound_metrics(d: &[u8]) -> (r: bool)
    ensures
        r == metrics_sound(d@),
{
    let at: u64 = read16(d, 10);
    if !sound_store(d, at) {
        return false;
    }
    let axes: u64 = read16(d, at + read32(d, at + 2));
    let n: u64 = read16(d, at + 6);
    let mut k: u64 = 0;
    while k < n
        invariant
            at <= 0xFFFF,
            axes <= 0xFFFF,
            k <= n <= 0xFFFF,
            at == u16_at(d@, 10),
            axes == u16_at(d@, at + u32_at(d@, at + 2)),
            n == u16_at(d@, at + 6),
            store_sound(d@, at as int),
            forall|j: int| 0 <= j < k ==> #[trigger] set_sound(d@, at as int, j),
        decreases n - k,
    {
        if !sound_delta(d, at + read32(d, at + 8 + 4 * k), axes) {
            assert(!set_sound(d@, at as int, k as int));
            return false;
        }
        k = k + 1;
    }
    true
}

}
