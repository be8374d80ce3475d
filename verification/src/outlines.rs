//! Whether the compact outlines of a font (`CFF ` and `CFF2`) can be read.

use crate::bytes::{byte, byte_at, fits, read16, read32, u16_at, u32_at};
use crate::variations::{sound_store, store_sound};
use vstd::prelude::*;

verus! {

// ------------------------------------------------------------------- indexes

/// How many bytes the count of an index takes.
pub open spec fn count_len(wide: bool) -> int {
    if wide {
        4
    } else {
        2
    }
}

/// How many items an index holds.
pub open spec fn index_count(d: Seq<u8>, p: int, wide: bool) -> int {
    if wide {
        u32_at(d, p)
    } else {
        u16_at(d, p)
    }
}

/// Whether a count stands for an index that holds nothing.
pub open spec fn no_items(count: int) -> bool {
    count == 0 || count == 0xFFFF_FFFF
}

/// How many bytes each offset of an index takes.
pub open spec fn offset_len(d: Seq<u8>, p: int, wide: bool) -> int {
    byte_at(d, p + count_len(wide))
}

/// An offset of some bytes.
pub open spec fn offset_at(d: Seq<u8>, q: int, len: int) -> int {
    if len == 1 {
        byte_at(d, q)
    } else if len == 2 {
        u16_at(d, q)
    } else if len == 3 {
        byte_at(d, q) * 65536 + u16_at(d, q + 1)
    } else {
        u32_at(d, q)
    }
}

/// The offset `k` of an index.
pub open spec fn index_offset(d: Seq<u8>, p: int, wide: bool, k: int) -> int {
    let len = offset_len(d, p, wide);
    offset_at(d, p + count_len(wide) + 1 + k * len, len)
}

/// Where the items of an index begin.
pub open spec fn index_data(d: Seq<u8>, p: int, wide: bool) -> int {
    p + count_len(wide) + 1 + (index_count(d, p, wide) + 1) * offset_len(d, p, wide)
}

/// Whether the items of an index can be looked for.
pub open spec fn has_items(d: Seq<u8>, p: int, wide: bool) -> bool {
    &&& !no_items(index_count(d, p, wide))
    &&& 1 <= offset_len(d, p, wide) <= 4
    &&& index_data(d, p, wide) <= d.len()
}

/// The last offset of an index.
pub open spec fn index_last(d: Seq<u8>, p: int, wide: bool) -> int {
    index_offset(d, p, wide, index_count(d, p, wide))
}

/// Whether an index can be read: its offsets and its items end where it fits.
pub open spec fn index_sound(d: Seq<u8>, p: int, wide: bool) -> bool {
    !no_items(index_count(d, p, wide)) && 1 <= offset_len(d, p, wide) <= 4 ==> {
        &&& fits(index_data(d, p, wide))
        &&& has_items(d, p, wide) ==> fits(index_data(d, p, wide) + index_last(d, p, wide) + 4)
    }
}

/// Where an index ends. One that cannot be read ends where it begins.
pub open spec fn index_end(d: Seq<u8>, p: int, wide: bool) -> int {
    if no_items(index_count(d, p, wide)) {
        p + count_len(wide)
    } else if !has_items(d, p, wide) {
        p
    } else if index_last(d, p, wide) == 0 {
        index_data(d, p, wide)
    } else {
        index_data(d, p, wide) + index_last(d, p, wide) - 1
    }
}

fn read_count(d: &[u8], p: u64, wide: bool) -> (r: u64)
    requires
        p <= 0xFFF_FFFF_FFFF,
    ensures
        r == index_count(d@, p as int, wide),
        r <= 0xFFFF_FFFF,
{
    if wide {
        read32(d, p)
    } else {
        read16(d, p)
    }
}

fn read_offset(d: &[u8], q: u64, len: u64) -> (r: u64)
    requires
        q <= 0xFFFF_FFFF_FFFF,
    ensures
        r == offset_at(d@, q as int, len as int),
        r <= 0xFFFF_FFFF,
{
    if len == 1 {
        byte(d, q)
    } else if len == 2 {
        read16(d, q)
    } else if len == 3 {
        byte(d, q) * 65536 + read16(d, q + 1)
    } else {
        read32(d, q)
    }
}

/// Where the items of an index begin, and its last offset, where they can be
/// looked for.
fn find_items(d: &[u8], p: u64, wide: bool) -> (r: Option<(u64, u64)>)
    requires
        p <= 0xFFF_FFFF_FFFF,
    ensures
        r is Some == has_items(d@, p as int, wide),
        r matches Some((data, last)) ==> data == index_data(d@, p as int, wide) && last
            == index_last(d@, p as int, wide) && last <= 0xFFFF_FFFF && data <= 0xFFFF_FFFF_FFFF,
{
    let count: u64 = read_count(d, p, wide);
    let head: u64 = if wide {
        4
    } else {
        2
    };
    let len: u64 = byte(d, p + head);
    if count == 0 || count == 0xFFFF_FFFF || len < 1 || len > 4 {
        return None;
    }
    assert(0 <= count * len <= 0x3_FFFF_FFFC && (count + 1) * len == count * len + len)
        by (nonlinear_arith)
        requires
            0 <= count <= 0xFFFF_FFFF,
            0 <= len <= 4,
    ;
    let data: u64 = p + head + 1 + (count + 1) * len;
    if data > d.len() as u64 {
        return None;
    }
    Some((data, read_offset(d, p + head + 1 + count * len, len)))
}

fn sound_index(d: &[u8], p: u64, wide: bool) -> (r: bool)
    requires
        p <= 0xFFF_FFFF_FFFF,
    ensures
        r == index_sound(d@, p as int, wide),
{
    let count: u64 = read_count(d, p, wide);
    let head: u64 = if wide {
        4
    } else {
        2
    };
    let len: u64 = byte(d, p + head);
    if count == 0 || count == 0xFFFF_FFFF || len < 1 || len > 4 {
        return true;
    }
    assert(0 <= (count + 1) * len <= 0x4_0000_0000) by (nonlinear_arith)
        requires
            0 <= count <= 0xFFFF_FFFF,
            0 <= len <= 4,
    ;
    if p + head + 1 + (count + 1) * len > 0xFFFF_FFFF {
        return false;
    }
    match find_items(d, p, wide) {
        Some((data, last)) => data + last + 4 <= 0xFFFF_FFFF,
        None => true,
    }
}

/// Where an index that can be read ends.
fn end_of_index(d: &[u8], p: u64, wide: bool) -> (r: u64)
    requires
        p <= 0xFFFF_FFFF,
        index_sound(d@, p as int, wide),
    ensures
        r == index_end(d@, p as int, wide),
        r <= p + 4 || r <= 0xFFFF_FFFB,
{
    let count: u64 = read_count(d, p, wide);
    if count == 0 || count == 0xFFFF_FFFF {
        return if wide {
            p + 4
        } else {
            p + 2
        };
    }
    match find_items(d, p, wide) {
        Some((data, last)) => if last == 0 {
            data
        } else {
            data + last - 1
        },
        None => p,
    }
}

// -------------------------------------------------------------- dictionaries

/// How many bytes are left.
pub open spec fn left(p: int, end: int) -> int {
    if p < end {
        end - p
    } else {
        0
    }
}

/// Where a real number ends: behind the first byte that holds its end mark.
pub open spec fn real_end(d: Seq<u8>, q: int, end: int) -> int
    decreases end - q,
{
    if q >= end || byte_at(d, q) / 16 == 15 || byte_at(d, q) % 16 == 15 {
        q + 1
    } else {
        real_end(d, q + 1, end)
    }
}

/// Whether a byte begins an operand of a dictionary.
pub open spec fn is_operand(b: int) -> bool {
    28 <= b <= 30 || 32 <= b <= 254
}

/// Whether a byte begins an operand that is an integer.
pub open spec fn is_integer(b: int) -> bool {
    is_operand(b) && b != 30
}

/// Where what stands in a dictionary at a position ends: an operator or an operand.
pub open spec fn token_end(d: Seq<u8>, p: int, end: int) -> int {
    let b = byte_at(d, p);
    if b == 30 {
        real_end(d, p + 1, end)
    } else if b == 29 {
        p + 5
    } else if b == 28 {
        p + 3
    } else if b == 12 || 247 <= b <= 254 {
        p + 2
    } else {
        p + 1
    }
}

/// The operator that stands in a dictionary at a position. Those of two bytes are
/// counted from 1200 on.
pub open spec fn operator_at(d: Seq<u8>, q: int) -> int {
    if byte_at(d, q) == 12 {
        1200 + byte_at(d, q + 1)
    } else {
        byte_at(d, q)
    }
}

/// The integer that stands in a dictionary at a position.
pub open spec fn integer_at(d: Seq<u8>, p: int) -> int {
    let b = byte_at(d, p);
    if b == 28 {
        if u16_at(d, p + 1) < 0x8000 {
            u16_at(d, p + 1)
        } else {
            u16_at(d, p + 1) - 0x1_0000
        }
    } else if b == 29 {
        if u32_at(d, p + 1) < 0x8000_0000 {
            u32_at(d, p + 1)
        } else {
            u32_at(d, p + 1) - 0x1_0000_0000
        }
    } else if b <= 246 {
        b - 139
    } else if b <= 250 {
        (b - 247) * 256 + byte_at(d, p + 1) + 108
    } else {
        -(b - 251) * 256 - byte_at(d, p + 1) - 108
    }
}

proof fn lemma_real_end(d: Seq<u8>, q: int, end: int)
    ensures
        q < real_end(d, q, end),
        real_end(d, q, end) <= q + 1 || real_end(d, q, end) <= end + 1,
    decreases end - q,
{
    if !(q >= end || byte_at(d, q) / 16 == 15 || byte_at(d, q) % 16 == 15) {
        lemma_real_end(d, q + 1, end);
    }
}

fn begins_operand(b: u64) -> (r: bool)
    ensures
        r == is_operand(b as int),
{
    (28 <= b && b <= 30) || (32 <= b && b <= 254)
}

fn end_of_token(d: &[u8], p: u64, end: u64) -> (r: u64)
    requires
        p < end <= 0xFFFF_FFFF_FFFF,
    ensures
        r == token_end(d@, p as int, end as int),
        p < r <= end + 5,
{
    proof {
        lemma_real_end(d@, p + 1, end as int);
    }
    let b: u64 = byte(d, p);
    if b == 30 {
        let mut q: u64 = p + 1;
        while q < end && byte(d, q) / 16 != 15 && byte(d, q) % 16 != 15
            invariant
                p < q <= end <= 0xFFFF_FFFF_FFFF,
                real_end(d@, q as int, end as int) == real_end(d@, p + 1, end as int),
            decreases end - q,
        {
            q = q + 1;
        }
        q + 1
    } else if b == 29 {
        p + 5
    } else if b == 28 {
        p + 3
    } else if b == 12 || (247 <= b && b <= 254) {
        p + 2
    } else {
        p + 1
    }
}

fn read_operator(d: &[u8], q: u64) -> (r: u64)
    requires
        q <= 0xFFFF_FFFF_FFFF,
    ensures
        r == operator_at(d@, q as int),
{
    let b: u64 = byte(d, q);
    if b == 12 {
        1200 + byte(d, q + 1)
    } else {
        b
    }
}

fn read_integer(d: &[u8], p: u64) -> (r: i64)
    requires
        p <= 0xFFFF_FFFF_FFFF,
    ensures
        r == integer_at(d@, p as int),
        -0x8000_0000 <= r < 0x8000_0000,
{
    let b: i64 = byte(d, p) as i64;
    if b == 28 {
        let n: i64 = read16(d, p + 1) as i64;
        if n < 0x8000 {
            n
        } else {
            n - 0x1_0000
        }
    } else if b == 29 {
        let n: i64 = read32(d, p + 1) as i64;
        if n < 0x8000_0000 {
            n
        } else {
            n - 0x1_0000_0000
        }
    } else if b <= 246 {
        b - 139
    } else if b <= 250 {
        (b - 247) * 256 + byte(d, p + 1) as i64 + 108
    } else {
        -(b - 251) * 256 - byte(d, p + 1) as i64 - 108
    }
}

/// Whether the subroutines that a private dictionary names can be read. It begins
/// at `start`, and `p` is where it is read on.
pub open spec fn private_sound(d: Seq<u8>, start: int, p: int, end: int, wide: bool) -> bool
    decreases left(p, end),
    via private_decreases
{
    let q = token_end(d, p, end);
    p >= end || {
        &&& is_operand(byte_at(d, p)) && q < end && operator_at(d, q) == 19 ==> {
            &&& is_integer(byte_at(d, p))
            &&& integer_at(d, p) >= 0 ==> index_sound(d, start + integer_at(d, p), wide)
        }
        &&& private_sound(d, start, q, end, wide)
    }
}

#[via_fn]
proof fn private_decreases(d: Seq<u8>, start: int, p: int, end: int, wide: bool) {
    lemma_real_end(d, p + 1, end);
}

fn sound_private(d: &[u8], start: u64, end: u64, wide: bool) -> (r: bool)
    requires
        start <= 0xFFFF_FFFF,
        end <= 0xFFFF_FFFF,
    ensures
        r == private_sound(d@, start as int, start as int, end as int, wide),
{
    let ghost whole = private_sound(d@, start as int, start as int, end as int, wide);
    let mut p: u64 = start;
    while p < end
        invariant
            start <= 0xFFFF_FFFF,
            end <= 0xFFFF_FFFF,
            whole == private_sound(d@, start as int, p as int, end as int, wide),
            whole == private_sound(d@, start as int, start as int, end as int, wide),
        decreases left(p as int, end as int),
    {
        let b: u64 = byte(d, p);
        let q: u64 = end_of_token(d, p, end);
        if begins_operand(b) && q < end && read_operator(d, q)
            == 19 {
            if b == 30 {
                return false;
            }
            let n: i64 = read_integer(d, p);
            if n >= 0 && !sound_index(d, start + n as u64, wide) {
                return false;
            }
        }
        p = q;
    }
    true
}

/// Whether the private dictionaries that a dictionary names can be read. `size` is
/// the operand before the one at `p`, if there is one and it is an integer.
pub open spec fn privates_sound(
    d: Seq<u8>,
    p: int,
    end: int,
    size: Option<int>,
    wide: bool,
) -> bool
    decreases left(p, end),
    via privates_decreases
{
    let q = token_end(d, p, end);
    let n = integer_at(d, p);
    p >= end || {
        &&& is_operand(byte_at(d, p)) && q < end && operator_at(d, q) == 18 ==> {
            &&& is_integer(byte_at(d, p))
            &&& size matches Some(len) && (n >= 0 && len >= 0 && n + len <= d.len()
                ==> private_sound(d, n, n, n + len, wide))
        }
        &&& privates_sound(
            d,
            q,
            end,
            if is_integer(byte_at(d, p)) {
                Some(n)
            } else {
                None
            },
            wide,
        )
    }
}

#[via_fn]
proof fn privates_decreases(d: Seq<u8>, p: int, end: int, size: Option<int>, wide: bool) {
    lemma_real_end(d, p + 1, end);
}

fn sound_privates(d: &[u8], start: u64, end: u64, wide: bool) -> (r: bool)
    requires
        start <= 0xFFFF_FFFF,
        end <= 0xFFFF_FFFF,
        d@.len() <= 0xFFFF_FFFF,
    ensures
        r == privates_sound(d@, start as int, end as int, None, wide),
{
    let ghost whole = privates_sound(d@, start as int, end as int, None, wide);
    let mut p: u64 = start;
    let mut size: Option<i64> = None;
    while p < end
        invariant
            d@.len() <= 0xFFFF_FFFF,
            end <= 0xFFFF_FFFF,
            size matches Some(len) ==> -0x8000_0000 <= len < 0x8000_0000,
            whole == privates_sound(
                d@,
                p as int,
                end as int,
                match size {
                    Some(len) => Some(len as int),
                    None => None,
                },
                wide,
            ),
            whole == privates_sound(d@, start as int, end as int, None, wide),
        decreases left(p as int, end as int),
    {
        let b: u64 = byte(d, p);
        let q: u64 = end_of_token(d, p, end);
        let n: i64 = read_integer(d, p);
        let operand = begins_operand(b);
        if operand && q < end && read_operator(d, q) == 18 {
            if b == 30 {
                return false;
            }
            match size {
                Some(len) => {
                    if n >= 0 && len >= 0 && (n + len) as u64 <= d.len() as u64 && !sound_private(
                        d,
                        n as u64,
                        (n + len) as u64,
                        wide,
                    ) {
                        return false;
                    }
                },
                None => {
                    return false;
                },
            }
        }
        size = if operand && b != 30 {
            Some(n)
        } else {
            None
        };
        p = q;
    }
    true
}

/// Whether the private dictionary of the font `k` of an index of fonts can be read.
pub open spec fn font_sound(d: Seq<u8>, at: int, k: int) -> bool {
    let start = index_data(d, at, true) + index_offset(d, at, true, k) - 1;
    let end = index_data(d, at, true) + index_offset(d, at, true, k + 1) - 1;
    end <= d.len() ==> privates_sound(d, start, end, None, true)
}

/// Whether an index of fonts can be read, with the private dictionaries of all of
/// them.
pub open spec fn fonts_sound(d: Seq<u8>, at: int) -> bool {
    has_items(d, at, true) ==> forall|k: int|
        0 <= k < index_count(d, at, true) ==> #[trigger] font_sound(d, at, k)
}

fn sound_font(d: &[u8], at: u64, data: u64, k: u64) -> (r: bool)
    requires
        at <= 0xFFFF_FFFF,
        d@.len() <= 0xFFFF_FFFF,
        has_items(d@, at as int, true),
        data == index_data(d@, at as int, true),
        k < index_count(d@, at as int, true),
    ensures
        r == font_sound(d@, at as int, k as int),
{
    let len: u64 = byte(d, at + 4);
    let next: u64 = k + 1;
    assert(0 <= k * len <= 0x3_FFFF_FFFC && next * len == k * len + len) by (nonlinear_arith)
        requires
            0 <= k <= 0xFFFF_FFFF,
            0 <= len <= 4,
            next == k + 1,
    ;
    let end: u64 = data + read_offset(d, at + 5 + next * len, len) - 1;
    if end > d.len() as u64 {
        return true;
    }
    let start: u64 = data + read_offset(d, at + 5 + k * len, len) - 1;
    if start >= end {
        return true;
    }
    sound_privates(d, start, end, true)
}

fn sound_fonts(d: &[u8], at: u64) -> (r: bool)
    requires
        at <= 0xFFFF_FFFF,
        d@.len() <= 0xFFFF_FFFF,
    ensures
        r == fonts_sound(d@, at as int),
{
    let data: u64 = match find_items(d, at, true) {
        Some((data, _)) => data,
        None => {
            return true;
        },
    };
    let n: u64 = read_count(d, at, true);
    let mut k: u64 = 0;
    while k < n
        invariant
            at <= 0xFFFF_FFFF,
            d@.len() <= 0xFFFF_FFFF,
            has_items(d@, at as int, true),
            data == index_data(d@, at as int, true),
            n == index_count(d@, at as int, true),
            k <= n <= 0xFFFF_FFFF,
            forall|j: int| 0 <= j < k ==> #[trigger] font_sound(d@, at as int, j),
        decreases n - k,
    {
        if !sound_font(d, at, data, k) {
            assert(!font_sound(d@, at as int, k as int));
            return false;
        }
        k = k + 1;
    }
    true
}

/// Whether what a top dictionary names by an operator can be read: the glyphs
/// (17), the fonts (12 36) and the variation store (24).
pub open spec fn named_sound(d: Seq<u8>, at: int, operator: int, wide: bool) -> bool {
    if operator == 17 {
        index_sound(d, at, wide)
    } else if operator == 1236 {
        index_sound(d, at, wide) && (wide ==> fonts_sound(d, at))
    } else if operator == 24 && wide {
        store_sound(d, at + 2)
    } else {
        true
    }
}

fn sound_named(d: &[u8], at: u64, operator: u64, wide: bool) -> (r: bool)
    requires
        at <= 0xFFFF_FFFF,
        d@.len() <= 0xFFFF_FFFF,
    ensures
        r == named_sound(d@, at as int, operator as int, wide),
{
    if operator == 17 {
        sound_index(d, at, wide)
    } else if operator == 1236 {
        sound_index(d, at, wide) && (!wide || sound_fonts(d, at))
    } else if operator == 24 && wide {
        sound_store(d, at + 2)
    } else {
        true
    }
}

/// Whether a top dictionary names something by an operator.
pub open spec fn is_name(operator: int, wide: bool) -> bool {
    operator == 17 || operator == 1236 || operator == 24 && wide
}

/// Whether all that a top dictionary names can be read.
pub open spec fn top_sound(d: Seq<u8>, p: int, end: int, wide: bool) -> bool
    decreases left(p, end),
    via top_decreases
{
    let q = token_end(d, p, end);
    p >= end || {
        &&& is_operand(byte_at(d, p)) && q < end && is_name(operator_at(d, q), wide) ==> {
            &&& is_integer(byte_at(d, p))
            &&& integer_at(d, p) >= 0 ==> named_sound(
                d,
                integer_at(d, p),
                operator_at(d, q),
                wide,
            )
        }
        &&& top_sound(d, q, end, wide)
    }
}

#[via_fn]
proof fn top_decreases(d: Seq<u8>, p: int, end: int, wide: bool) {
    lemma_real_end(d, p + 1, end);
}

fn sound_top(d: &[u8], start: u64, end: u64, wide: bool) -> (r: bool)
    requires
        start <= 0xFFFF_FFFF,
        end <= 0xFFFF_FFFF,
        d@.len() <= 0xFFFF_FFFF,
    ensures
        r == top_sound(d@, start as int, end as int, wide),
{
    let ghost whole = top_sound(d@, start as int, end as int, wide);
    let mut p: u64 = start;
    while p < end
        invariant
            d@.len() <= 0xFFFF_FFFF,
            end <= 0xFFFF_FFFF,
            whole == top_sound(d@, p as int, end as int, wide),
            whole == top_sound(d@, start as int, end as int, wide),
        decreases left(p as int, end as int),
    {
        let b: u64 = byte(d, p);
        let q: u64 = end_of_token(d, p, end);
        if begins_operand(b) && q < end {
            let operator: u64 = read_operator(d, q);
            if operator == 17 || operator == 1236 || (operator == 24 && wide) {
                if b == 30 {
                    return false;
                }
                let n: i64 = read_integer(d, p);
                if n >= 0 && !sound_named(d, n as u64, operator, wide) {
                    return false;
                }
            }
        }
        p = q;
    }
    true
}

// -------------------------------------------------------------------- tables

/// Whether a top dictionary that lies in the table can be read.
pub open spec fn dict_sound(d: Seq<u8>, start: int, end: int, wide: bool) -> bool {
    end <= d.len() ==> privates_sound(d, start, end, None, wide) && top_sound(d, start, end, wide)
}

fn sound_dict(d: &[u8], start: u64, end: u64, wide: bool) -> (r: bool)
    requires
        d@.len() <= 0xFFFF_FFFF,
    ensures
        r == dict_sound(d@, start as int, end as int, wide),
{
    if end > d.len() as u64 || start >= end {
        return true;
    }
    sound_privates(d, start, end, wide) && sound_top(d, start, end, wide)
}

/// Whether a table of outlines can be read: its names, its top dictionary, its
/// strings and its subroutines, which stand one behind the other, and what the
/// dictionary names.
pub open spec fn outlines_sound(d: Seq<u8>) -> bool {
    let names: int = if byte_at(d, 2) > 4 {
        byte_at(d, 2)
    } else {
        4
    };
    let tops = index_end(d, names, false);
    let strings = index_end(d, tops, false);
    let routines = index_end(d, strings, false);
    let data = index_data(d, tops, false);
    byte_at(d, 0) == 1 ==> {
        &&& index_sound(d, names, false)
        &&& index_sound(d, tops, false)
        &&& index_sound(d, strings, false)
        &&& index_sound(d, routines, false)
        &&& has_items(d, tops, false) ==> dict_sound(
            d,
            data + index_offset(d, tops, false, 0) - 1,
            data + index_offset(d, tops, false, 1) - 1,
            false,
        )
    }
}

pub(crate) fn sound_outlines(d: &[u8]) -> (r: bool)
    requires
        d@.len() <= 0xFFFF_0000,
    ensures
        r == outlines_sound(d@),
{
    if byte(d, 0) != 1 {
        return true;
    }
    let size: u64 = byte(d, 2);
    let names: u64 = if size > 4 {
        size
    } else {
        4
    };
    if !sound_index(d, names, false) {
        return false;
    }
    let tops: u64 = end_of_index(d, names, false);
    if !sound_index(d, tops, false) {
        return false;
    }
    let strings: u64 = end_of_index(d, tops, false);
    if !sound_index(d, strings, false) {
        return false;
    }
    let routines: u64 = end_of_index(d, strings, false);
    if !sound_index(d, routines, false) {
        return false;
    }
    match find_items(d, tops, false) {
        Some((data, _)) => {
            let len: u64 = byte(d, tops + 2);
            let start: u64 = data + read_offset(d, tops + 3, len) - 1;
            let end: u64 = data + read_offset(d, tops + 3 + len, len) - 1;
            sound_dict(d, start, end, false)
        },
        None => true,
    }
}

/// Whether a table of outlines with variations can be read: its top dictionary, its
/// subroutines, which stand behind it, and what the dictionary names.
pub open spec fn outlines2_sound(d: Seq<u8>) -> bool {
    let top: int = if byte_at(d, 2) > 5 {
        byte_at(d, 2)
    } else {
        5
    };
    byte_at(d, 0) == 2 ==> {
        &&& dict_sound(d, top, top + u16_at(d, 3), true)
        &&& index_sound(d, top + u16_at(d, 3), true)
    }
}

pub(crate) fn sound_outlines2(d: &[u8]) -> (r: bool)
    requires
        d@.len() <= 0xFFFF_0000,
    ensures
        r == outlines2_sound(d@),
{
    if byte(d, 0) != 2 {
        return true;
    }
    let size: u64 = byte(d, 2);
    let top: u64 = if size > 5 {
        size
    } else {
        5
    };
    let end: u64 = top + read16(d, 3);
    sound_dict(d, top, end, true) && sound_index(d, end, true)
}

}
