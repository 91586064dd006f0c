//! Screencast frames.

use vstd::prelude::*;

verus! {

/// Whether a start-of-frame marker, baseline or progressive, stands at `i`.
pub open spec fn frame_marker(data: Seq<u8>, i: int) -> bool {
    data[i] == 0xff && (data[i + 1] == 0xc0 || data[i + 1] == 0xc2)
}

/// Two bytes as a number, the higher first.
pub open spec fn big_endian(high: u8, low: u8) -> nat {
    (256 * high + low) as nat
}

/// Width and height of a JPEG, from its first start-of-frame marker with enough
/// bytes behind it.
pub fn jpeg_dimensions(data: &[u8]) -> (r: Option<(u32, u32)>)
    ensures
        match r {
            Some((width, height)) => exists|i: int|
                0 <= i < data@.len() - 8 && #[trigger] frame_marker(data@, i) && (forall|k: int|
                    0 <= k < i ==> !#[trigger] frame_marker(data@, k)) && height == big_endian(
                    data@[i + 5],
                    data@[i + 6],
                ) && width == big_endian(data@[i + 7], data@[i + 8]),
            None => forall|k: int|
                0 <= k < data@.len() - 8 ==> !#[trigger] frame_marker(data@, k),
        },
{
    let n: usize = data.len();
    if n < 8 {
        return None;
    }
    let end: usize = n - 8;
    let mut i: usize = 0;
    while i < end
        invariant
            i <= end,
            end == n - 8,
            n == data@.len(),
            forall|k: int| 0 <= k < i ==> !#[trigger] frame_marker(data@, k),
        decreases end - i,
    {
        if data[i] == 0xff && (data[i + 1] == 0xc0 || data[i + 1] == 0xc2) {
            assert(frame_marker(data@, i as int));
            let height: u32 = 256 * data[i + 5] as u32 + data[i + 6] as u32;
            let width: u32 = 256 * data[i + 7] as u32 + data[i + 8] as u32;
            return Some((width, height));
        }
        i = i + 1;
    }
    None
}

/// A number of two bytes is taken apart into them, the higher first.
pub proof fn two_bytes_make_a_number(high: u8, low: u8)
    ensures
        big_endian(high, low) / 256 == high,
        big_endian(high, low) % 256 == low,
{
}

/// The marker of a frame is the byte of all markers, and behind it that of a
/// baseline or of a progressive frame.
pub proof fn markers_open_frames(data: Seq<u8>, i: int)
    requires
        0 <= i < data.len() - 1,
    ensures
        frame_marker(data, i) <==> data.subrange(i, i + 2) == seq![0xffu8, 0xc0u8]
            || data.subrange(i, i + 2) == seq![0xffu8, 0xc2u8],
{
    let two = data.subrange(i, i + 2);
    if frame_marker(data, i) {
        if data[i + 1] == 0xc0 {
            assert(two =~= seq![0xffu8, 0xc0u8]);
        } else {
            assert(two =~= seq![0xffu8, 0xc2u8]);
        }
    }
    if two == seq![0xffu8, 0xc0u8] || two == seq![0xffu8, 0xc2u8] {
        assert(two[0] == data[i] && two[1] == data[i + 1]);
    }
}

} // verus!
