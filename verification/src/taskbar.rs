//! The taskbar overlay icon: picking the image out of an `.ico` file.
//!
//! An `.ico` is a directory (`ICONDIR`: reserved, type, count) followed by
//! one 16-byte `ICONDIRENTRY` per image, each naming a byte range elsewhere
//! in the file. The shell wants that byte range alone.

use vstd::prelude::*;

verus! {

/// The size the shell draws a taskbar overlay at.
pub const OVERLAY_PX: u32 = 16;

pub open spec fn le16(data: Seq<u8>, at: int) -> int {
    data[at] + 256 * data[at + 1]
}

pub open spec fn le32(data: Seq<u8>, at: int) -> int {
    data[at] + 256 * data[at + 1] + 65536 * data[at + 2] + 16777216 * data[at + 3]
}

/// An entry's width: one byte, where 0 stands for 256.
pub open spec fn entry_width(data: Seq<u8>, entry: int) -> int {
    if data[entry] == 0 { 256 } else { data[entry] as int }
}

pub open spec fn abs_diff(a: int, b: int) -> int {
    if a >= b { a - b } else { b - a }
}

/// The best image among entries `index..count`, given the best so far as
/// (offset, end, distance from the overlay size). Scanning stops at the
/// first entry that lies past the end of the data; entries naming no bytes,
/// or bytes outside the data, are skipped; a later entry wins only when it
/// is strictly closer to the overlay size.
pub open spec fn best_from(data: Seq<u8>, index: int, count: int, best: Option<(int, int, int)>) -> Option<(int, int, int)>
    decreases count - index,
{
    if index < 0 || index >= count {
        best
    } else {
        let entry = 6 + index * 16;
        if entry + 16 > data.len() {
            best
        } else {
            let size = le32(data, entry + 8);
            let offset = le32(data, entry + 12);
            let end = offset + size;
            if size == 0 || end > data.len() {
                best_from(data, index + 1, count, best)
            } else {
                let distance = abs_diff(entry_width(data, entry), OVERLAY_PX as int);
                let better = match best {
                    Some((_, _, d)) => distance < d,
                    None => true,
                };
                best_from(data, index + 1, count, if better { Some((offset, end, distance)) } else { best })
            }
        }
    }
}

/// The byte range of the image in an `.ico` that best matches the overlay
/// size, if the directory is that of an icon file with at least one image.
pub open spec fn best_image_range(data: Seq<u8>) -> Option<(int, int)> {
    if data.len() < 6 || le16(data, 0) != 0 || le16(data, 2) != 1 || le16(data, 4) == 0 {
        None
    } else {
        match best_from(data, 0, le16(data, 4), None) {
            Some((o, e, _)) => Some((o, e)),
            None => None,
        }
    }
}

fn read_le32(data: &[u8], at: usize) -> (r: usize)
    requires
        at + 4 <= data@.len(),
    ensures
        r == le32(data@, at as int),
{
    let v: u64 = (data[at] as u64) + 256 * (data[at + 1] as u64) + 65536 * (data[at + 2] as u64)
        + 16777216 * (data[at + 3] as u64);
    assert(v < 0x1_0000_0000);
    v as usize
}

/// The image inside `.ico` bytes that best matches the overlay size. Every
/// offset is checked against the data, so no entry can point outside it.
pub fn best_image(data: &[u8]) -> (r: Option<&[u8]>)
    ensures
        match best_image_range(data@) {
            Some((o, e)) => r matches Some(img) && img@ == data@.subrange(o, e),
            None => r is None,
        },
{
    if data.len() < 6 {
        return None;
    }
    let reserved = (data[0] as u32) + 256 * (data[1] as u32);
    let kind = (data[2] as u32) + 256 * (data[3] as u32);
    let count = (data[4] as usize) + 256 * (data[5] as usize);
    if reserved != 0 || kind != 1 || count == 0 {
        return None;
    }
    let ghost total = count as int;
    let mut best: Option<(usize, usize, u32)> = None;
    let mut index: usize = 0;
    while index < count
        invariant
            count == le16(data@, 4),
            index <= count,
            data@.len() <= usize::MAX,
            best_from(data@, 0, total, None) == best_from(data@, index as int, total, match best {
                Some((o, e, d)) => Some((o as int, e as int, d as int)),
                None => None,
            }),
            total == count,
            best matches Some((o, e, _)) ==> o <= e <= data@.len(),
        ensures
            best_from(data@, 0, total, None) == match best {
                Some((o, e, d)) => Some((o as int, e as int, d as int)),
                None => None,
            },
            best matches Some((o, e, _)) ==> o <= e <= data@.len(),
        decreases count - index,
    {
        let entry = 6 + index * 16;
        if entry + 16 > data.len() {
            break;
        }
        let width: u32 = if data[entry] == 0 { 256 } else { data[entry] as u32 };
        let size = read_le32(data, entry + 8);
        let offset = read_le32(data, entry + 12);
        if size == 0 || offset > data.len() || size > data.len() - offset {
            index = index + 1;
            continue;
        }
        let end = offset + size;
        let distance: u32 = if width >= OVERLAY_PX { width - OVERLAY_PX } else { OVERLAY_PX - width };
        let better = match best {
            Some((_, _, d)) => distance < d,
            None => true,
        };
        if better {
            best = Some((offset, end, distance));
        }
        index = index + 1;
    }
    match best {
        Some((o, e, _)) => Some(vstd::slice::slice_subrange(data, o, e)),
        None => None,
    }
}

/// Sets or clears the window's taskbar overlay. Taskbar overlays exist only
/// on Windows; everywhere else there is nothing to do.
pub fn set_overlay(hwnd: isize, icon_data: Option<&[u8]>) {
    let _ = hwnd;
    let _ = icon_data;
}

} // verus!
