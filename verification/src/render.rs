//! The division of an image among workers, and the bytes of a pixel.
//!
//! The framebuffer holds four bytes per pixel, in the order blue, green,
//! red, alpha, row after row. Each worker owns one contiguous range of bytes;
//! the ranges are fixed before any worker starts and tile the buffer, so no
//! two workers ever write the same byte.
use vstd::prelude::*;
use crate::interval::Interval;
use crate::scalar::Scalar;

verus! {

/// The pattern of 0.999, the brightest intensity that is stored.
pub const MAX_INTENSITY_BITS: u32 = 0x3f7f_be77;

/// A range of byte offsets into the framebuffer, `start` included and `end`
/// excluded.
#[derive(Debug, Clone, Copy, PartialEq, Eq, Structural)]
pub struct ByteRange {
    pub start: u32,
    pub end: u32,
}

/// The number of bytes of the framebuffer.
pub open spec fn total_bytes(width: u32, height: u32) -> int {
    width * height * 4
}

/// The number of bytes that every worker but the last is given: the pixels
/// divided evenly, rounded down, times four.
pub open spec fn spec_chunk_size(width: u32, height: u32, count: u32) -> int {
    ((width * height) / (count as int)) * 4
}

/// The range of worker `i` out of `count`: the last worker also takes what
/// the even division leaves over.
pub open spec fn spec_range_start(width: u32, height: u32, count: u32, i: int) -> int {
    i * spec_chunk_size(width, height, count)
}

/// See [`spec_range_start`].
pub open spec fn spec_range_end(width: u32, height: u32, count: u32, i: int) -> int {
    if i == count - 1 {
        total_bytes(width, height)
    } else {
        (i + 1) * spec_chunk_size(width, height, count)
    }
}

/// The worker that owns byte `offset`.
pub open spec fn spec_owner(width: u32, height: u32, count: u32, offset: int) -> int {
    let chunk = spec_chunk_size(width, height, count);
    if chunk == 0 || offset / chunk >= count - 1 {
        count - 1
    } else {
        offset / chunk
    }
}

/// The even shares never add up to more than the whole.
pub proof fn lemma_chunks_fit(width: u32, height: u32, count: u32, i: int)
    requires
        count >= 1,
        0 <= i < count,
    ensures
        0 <= spec_chunk_size(width, height, count),
        spec_chunk_size(width, height, count) % 4 == 0,
        0 <= i * spec_chunk_size(width, height, count),
        (i + 1) * spec_chunk_size(width, height, count) <= total_bytes(width, height),
        i * spec_chunk_size(width, height, count) <= (i + 1) * spec_chunk_size(
            width,
            height,
            count,
        ),
{
    let pixels: int = width * height;
    let q: int = pixels / (count as int);
    let c: int = count as int;
    assert(0 <= pixels) by (nonlinear_arith)
        requires
            pixels == width * height,
    ;
    assert(0 <= q && q * c <= pixels) by (nonlinear_arith)
        requires
            q == pixels / c,
            c >= 1,
            pixels >= 0,
    ;
    assert((i + 1) * q <= q * c && 0 <= i * q && i * q <= (i + 1) * q) by (nonlinear_arith)
        requires
            0 <= i < c,
            0 <= q,
    ;
    assert((i + 1) * (q * 4) == ((i + 1) * q) * 4 && i * (q * 4) == (i * q) * 4)
        by (nonlinear_arith);
}

/// The ranges of `count` workers tile the framebuffer: the first starts at
/// byte 0, each one ends where the next starts, the last ends with the
/// buffer, and none splits a pixel.
pub proof fn lemma_ranges_are_contiguous(width: u32, height: u32, count: u32, i: int)
    requires
        count >= 1,
        0 <= i < count,
    ensures
        spec_range_start(width, height, count, 0) == 0,
        spec_range_end(width, height, count, count - 1) == total_bytes(width, height),
        0 <= spec_range_start(width, height, count, i) <= spec_range_end(width, height, count, i)
            <= total_bytes(width, height),
        i + 1 < count ==> spec_range_end(width, height, count, i) == spec_range_start(
            width,
            height,
            count,
            i + 1,
        ),
        spec_range_start(width, height, count, i) % 4 == 0,
        spec_range_end(width, height, count, i) % 4 == 0,
{
    lemma_chunks_fit(width, height, count, i);
    let chunk = spec_chunk_size(width, height, count);
    let q: int = (width * height) / (count as int);
    assert((i * q) * 4 == i * (q * 4) && ((i + 1) * q) * 4 == (i + 1) * (q * 4))
        by (nonlinear_arith);
    assert(total_bytes(width, height) == (width * height) * 4);
}

/// Every byte of the framebuffer lies in the range of exactly one worker,
/// whatever the number of workers: the ranges leave no gap and do not
/// overlap.
pub proof fn lemma_partition_tiles(width: u32, height: u32, count: u32, offset: int, i: int)
    requires
        count >= 1,
        0 <= offset < total_bytes(width, height),
        0 <= i < count,
    ensures
        0 <= spec_owner(width, height, count, offset) < count,
        (spec_range_start(width, height, count, i) <= offset < spec_range_end(
            width,
            height,
            count,
            i,
        )) <==> i == spec_owner(width, height, count, offset),
{
    let chunk = spec_chunk_size(width, height, count);
    let c: int = count as int;
    lemma_chunks_fit(width, height, count, i);
    lemma_chunks_fit(width, height, count, 0);
    if chunk == 0 {
        assert(i * chunk == 0 && (i + 1) * chunk == 0) by (nonlinear_arith)
            requires
                chunk == 0,
        ;
    } else {
        let k: int = offset / chunk;
        assert(0 <= k && k * chunk <= offset < (k + 1) * chunk) by (nonlinear_arith)
            requires
                k == offset / chunk,
                chunk > 0,
                offset >= 0,
        ;
        if i < k {
            assert((i + 1) * chunk <= k * chunk) by (nonlinear_arith)
                requires
                    i + 1 <= k,
                    chunk > 0,
            ;
        }
        if i > k {
            assert((k + 1) * chunk <= i * chunk) by (nonlinear_arith)
                requires
                    k + 1 <= i,
                    chunk > 0,
            ;
        }
    }
}

/// The bytes that `count` workers cover between them.
pub open spec fn covered(width: u32, height: u32, count: u32) -> Set<int> {
    Set::new(
        |offset: int|
            exists|i: int|
                0 <= i < count && spec_range_start(width, height, count, i) <= offset
                    < #[trigger] spec_range_end(width, height, count, i),
    )
}

/// Any number of workers covers exactly the bytes of the framebuffer, so one
/// worker and many cover the same set.
pub proof fn lemma_cover_is_framebuffer(width: u32, height: u32, count: u32, other: u32)
    requires
        count >= 1,
        other >= 1,
    ensures
        covered(width, height, count) == Set::new(
            |offset: int| 0 <= offset < total_bytes(width, height),
        ),
        covered(width, height, count) == covered(width, height, other),
{
    lemma_cover_of(width, height, count);
    lemma_cover_of(width, height, other);
}

proof fn lemma_cover_of(width: u32, height: u32, count: u32)
    requires
        count >= 1,
    ensures
        covered(width, height, count) == Set::new(
            |offset: int| 0 <= offset < total_bytes(width, height),
        ),
{
    let whole = Set::new(|offset: int| 0 <= offset < total_bytes(width, height));
    assert forall|offset: int| covered(width, height, count).contains(offset) implies whole.contains(
        offset,
    ) by {
        let i = choose|i: int|
            0 <= i < count && spec_range_start(width, height, count, i) <= offset
                < #[trigger] spec_range_end(width, height, count, i);
        lemma_ranges_are_contiguous(width, height, count, i);
    }
    assert forall|offset: int| whole.contains(offset) implies covered(
        width,
        height,
        count,
    ).contains(offset) by {
        let i = spec_owner(width, height, count, offset);
        lemma_partition_tiles(width, height, count, offset, 0);
        lemma_partition_tiles(width, height, count, offset, i);
        assert(spec_range_start(width, height, count, i) <= offset < spec_range_end(
            width,
            height,
            count,
            i,
        ));
    }
    assert(covered(width, height, count) =~= whole);
}

/// The number of bytes that every worker but the last is given.
pub fn chunk_size(width: u32, height: u32, count: u32) -> (r: u32)
    requires
        count >= 1,
        total_bytes(width, height) <= u32::MAX,
    ensures
        r == spec_chunk_size(width, height, count),
{
    proof {
        lemma_chunks_fit(width, height, count, 0);
        assert(0 <= width * height) by (nonlinear_arith);
    }
    ((width * height) / count) * 4
}

/// The byte range of worker `i` out of `count`.
pub fn thread_range(width: u32, height: u32, count: u32, i: u32) -> (r: ByteRange)
    requires
        count >= 1,
        i < count,
        total_bytes(width, height) <= u32::MAX,
    ensures
        r.start == spec_range_start(width, height, count, i as int),
        r.end == spec_range_end(width, height, count, i as int),
        r.start <= r.end,
{
    let chunk = chunk_size(width, height, count);
    proof {
        lemma_chunks_fit(width, height, count, i as int);
        lemma_ranges_are_contiguous(width, height, count, i as int);
        assert(0 <= width * height) by (nonlinear_arith);
    }
    let start = i * chunk;
    let end = if i == count - 1 {
        width * height * 4
    } else {
        (i + 1) * chunk
    };
    ByteRange { start, end }
}

/// The byte ranges of all `count` workers, in order.
pub fn partition(width: u32, height: u32, count: u32) -> (ranges: Vec<ByteRange>)
    requires
        count >= 1,
        total_bytes(width, height) <= u32::MAX,
    ensures
        ranges.len() == count,
        forall|i: int|
            0 <= i < count ==> (#[trigger] ranges[i]).start == spec_range_start(
                width,
                height,
                count,
                i,
            ) && ranges[i].end == spec_range_end(width, height, count, i),
        ranges[0].start == 0,
        ranges[count - 1].end == total_bytes(width, height),
        forall|i: int| 0 <= i < count ==> (#[trigger] ranges[i]).start <= ranges[i].end,
        forall|i: int| 0 <= i < count - 1 ==> (#[trigger] ranges[i]).end == ranges[i + 1].start,
{
    let mut ranges: Vec<ByteRange> = Vec::new();
    let mut i: u32 = 0;
    while i < count
        invariant
            count >= 1,
            i <= count,
            total_bytes(width, height) <= u32::MAX,
            ranges.len() == i,
            forall|j: int|
                0 <= j < i ==> (#[trigger] ranges[j]).start == spec_range_start(
                    width,
                    height,
                    count,
                    j,
                ) && ranges[j].end == spec_range_end(width, height, count, j),
        decreases count - i,
    {
        ranges.push(thread_range(width, height, count, i));
        i = i + 1;
    }
    proof {
        assert forall|k: int| 0 <= k < count implies (#[trigger] ranges[k]).start <= ranges[k].end
            && (k + 1 < count ==> ranges[k].end == ranges[k + 1].start) by {
            lemma_ranges_are_contiguous(width, height, count, k);
        }
        lemma_ranges_are_contiguous(width, height, count, 0);
    }
    ranges
}

/// The column and the row of the pixel whose first byte is at `offset`.
pub fn pixel_of(offset: u32, width: u32) -> (xy: (u32, u32))
    requires
        width >= 1,
    ensures
        xy.0 == (offset / 4) % width,
        xy.1 == (offset / 4) / width,
        xy.0 < width,
        xy.1 * width + xy.0 == offset / 4,
{
    let p: u32 = offset / 4;
    proof {
        let w: int = width as int;
        let pi: int = p as int;
        assert((pi / w) * w + pi % w == pi && 0 <= pi % w < w) by (nonlinear_arith)
            requires
                w >= 1,
                pi >= 0,
        ;
    }
    (p % width, p / width)
}

/// The four bytes of a pixel in framebuffer order: blue, green, red, and an
/// opaque alpha.
pub fn pixel_bytes(r: u8, g: u8, b: u8) -> (bytes: [u8; 4])
    ensures
        bytes[0] == b,
        bytes[1] == g,
        bytes[2] == r,
        bytes[3] == 0xFF,
{
    [b, g, r, 0xFF]
}

/// The gamma-encoded value of a linear intensity: its square root, handed
/// in as `root`, where the intensity is positive, and zero elsewhere.
pub fn linear_to_gamma(value: Scalar, root: Scalar) -> (r: Scalar)
    ensures
        r == if (Scalar { bits: 0 }).spec_lt(value) {
            root
        } else {
            Scalar { bits: 0 }
        },
{
    if value.gt(Scalar::zero()) {
        root
    } else {
        Scalar::zero()
    }
}

/// An encoded intensity brought into `[0, 0.999]`, the range that is
/// quantized to a byte.
pub fn clamp_intensity(value: Scalar) -> (r: Scalar)
    ensures
        r == (Interval { min: Scalar { bits: 0 }, max: Scalar { bits: MAX_INTENSITY_BITS } }).spec_clamp(
            value,
        ),
{
    let intensity = Interval::new(Scalar::zero(), Scalar::from_bits(MAX_INTENSITY_BITS));
    intensity.clamp(value)
}

/// One worker's walk through its byte range, pixel by pixel.
///
/// Before each pixel the worker is told whether the render was cancelled;
/// once it was, or once the range is used up, the walk is over.
#[derive(Debug, Clone, Copy, PartialEq, Eq, Structural)]
pub struct Worker {
    pub next: u32,
    pub end: u32,
}

impl Worker {
    /// Whether the walk is inside the range and on a pixel boundary.
    pub open spec fn well_formed(self) -> bool {
        self.next % 4 == 0 && self.end % 4 == 0 && self.next <= self.end
    }

    /// The number of pixels that are still to be rendered.
    pub open spec fn remaining(self) -> int {
        (self.end - self.next) / 4
    }

    /// A worker at the start of its range.
    pub fn new(range: ByteRange) -> (w: Worker)
        requires
            range.start % 4 == 0,
            range.end % 4 == 0,
            range.start <= range.end,
        ensures
            w.next == range.start,
            w.end == range.end,
            w.well_formed(),
    {
        Worker { next: range.start, end: range.end }
    }

    /// The offset of the pixel to render next, or `None` when the worker is
    /// to stop: the render was cancelled or the range is done. A pixel that
    /// was handed out counts as rendered.
    pub fn next_pixel(&mut self, cancelled: bool) -> (offset: Option<u32>)
        requires
            old(self).well_formed(),
        ensures
            final(self).well_formed(),
            final(self).end == old(self).end,
            cancelled || old(self).next == old(self).end ==> offset.is_none() && *final(self)
                == *old(self),
            !cancelled && old(self).next < old(self).end ==> offset == Some(old(self).next)
                && final(self).next == old(self).next + 4 && final(self).remaining() == old(
                self,
            ).remaining() - 1,
    {
        if cancelled || self.next >= self.end {
            None
        } else {
            let at = self.next;
            self.next = self.next + 4;
            Some(at)
        }
    }
}

} // verus!
