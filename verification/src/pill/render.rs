//! From the renderer's pixels to those that the screen takes.
use vstd::prelude::*;

verus! {

/// Where the byte at `k` comes from when red and blue change places.
pub open spec fn swapped(k: int) -> int {
    if k % 4 == 0 {
        k + 2
    } else if k % 4 == 2 {
        k - 2
    } else {
        k
    }
}

/// The number of bytes in the whole pixels that both buffers hold.
pub open spec fn shared_bytes(a: int, b: int) -> int {
    if a <= b {
        a / 4 * 4
    } else {
        b / 4 * 4
    }
}

/// Turns premultiplied RGBA into premultiplied BGRA. What the shorter buffer has
/// no room for is left alone.
pub fn pixmap_to_premul_bgra(src: &[u8], dst: &mut Vec<u8>)
    ensures
        final(dst)@.len() == old(dst)@.len(),
        forall|k: int|
            0 <= k < old(dst)@.len() ==> #[trigger] final(dst)@[k] == (if k < shared_bytes(
                src@.len() as int,
                old(dst)@.len() as int,
            ) {
                src@[swapped(k)]
            } else {
                old(dst)@[k]
            }),
{
    let shorter: usize = if src.len() <= dst.len() {
        src.len()
    } else {
        dst.len()
    };
    let pixels: usize = shorter / 4;
    let ghost before = dst@;
    let mut i: usize = 0;
    while i < pixels
        invariant
            i <= pixels,
            pixels * 4 <= src@.len(),
            pixels * 4 <= dst@.len(),
            dst@.len() == before.len(),
            src@.len() <= usize::MAX,
            forall|k: int|
                0 <= k < dst@.len() ==> #[trigger] dst@[k] == (if k < i * 4 {
                    src@[swapped(k)]
                } else {
                    before[k]
                }),
        decreases pixels - i,
    {
        let at: usize = i * 4;
        dst.set(at, src[at + 2]);
        dst.set(at + 1, src[at + 1]);
        dst.set(at + 2, src[at]);
        dst.set(at + 3, src[at + 3]);
        i += 1;
    }
}

/// Changing places twice changes nothing, so that the conversion undoes itself.
pub proof fn law_swapping_undoes_itself(k: int)
    requires
        0 <= k,
    ensures
        swapped(swapped(k)) == k,
        swapped(k) / 4 == k / 4,
{
}

/// In every pixel the first and the third byte change places, and the other two stay.
pub proof fn law_red_and_blue_change_places(p: int)
    requires
        0 <= p,
    ensures
        swapped(4 * p) == 4 * p + 2,
        swapped(4 * p + 1) == 4 * p + 1,
        swapped(4 * p + 2) == 4 * p,
        swapped(4 * p + 3) == 4 * p + 3,
{
}

/// All the pixels that are whole in both buffers are converted, and no others.
pub proof fn law_whole_pixels_are_converted(a: int, b: int)
    requires
        0 <= a,
        0 <= b,
    ensures
        shared_bytes(a, b) % 4 == 0,
        shared_bytes(a, b) <= a && shared_bytes(a, b) <= b,
        shared_bytes(a, b) + 4 > a || shared_bytes(a, b) + 4 > b,
{
}

} // verus!
