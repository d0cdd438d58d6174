//! The pixel-difference algorithm and its normalised score.

use vstd::prelude::*;

verus! {

/// An image held as RGBA samples, four bytes per pixel, row by row.
#[derive(Clone, Debug)]
pub struct RgbaImage {
    pub width: u32,
    pub height: u32,
    pub pixels: Vec<u8>,
}

/// Number of samples that an image of the given size holds.
pub open spec fn sample_count(width: u32, height: u32) -> int {
    4 * ((width as int) * (height as int))
}

impl RgbaImage {
    /// The sample buffer has exactly one RGBA quadruple per pixel.
    pub open spec fn wf(&self) -> bool {
        self.pixels@.len() == sample_count(self.width, self.height)
    }

    /// Builds an image from raw RGBA samples; `None` when the buffer length
    /// does not match the dimensions.
    pub fn from_raw(width: u32, height: u32, pixels: Vec<u8>) -> (r: Option<RgbaImage>)
        ensures
            r is Some <==> pixels@.len() == sample_count(width, height),
            r matches Some(img) ==> img.width == width && img.height == height
                && img.pixels@ == pixels@ && img.wf(),
    {
        proof {
            assert((width as int) * (height as int) <= 0xffff_ffffint * 0xffff_ffffint)
                by (nonlinear_arith)
                requires
                    width <= 0xffff_ffff,
                    height <= 0xffff_ffff,
            ;
        }
        let expected: u128 = 4u128 * ((width as u128) * (height as u128));
        if pixels.len() as u128 == expected {
            Some(RgbaImage { width, height, pixels })
        } else {
            None
        }
    }

    /// Whether two images have the same width and height.
    pub fn same_dimensions(&self, other: &RgbaImage) -> (r: bool)
        ensures
            r == (self.width == other.width && self.height == other.height),
    {
        self.width == other.width && self.height == other.height
    }
}

/// Distance between two samples.
pub open spec fn delta(a: u8, b: u8) -> int {
    if a > b {
        a - b
    } else {
        b - a
    }
}

/// The larger of two samples.
pub open spec fn peak(a: u8, b: u8) -> int {
    if a > b {
        a as int
    } else {
        b as int
    }
}

/// Sum of the sample distances over the first `n` samples.
pub open spec fn delta_total(a: Seq<u8>, b: Seq<u8>, n: nat) -> int
    decreases n,
{
    if n == 0 {
        0
    } else {
        delta_total(a, b, (n - 1) as nat) + delta(a[n - 1], b[n - 1])
    }
}

/// Sum of the larger sample over the first `n` samples.
pub open spec fn peak_total(a: Seq<u8>, b: Seq<u8>, n: nat) -> int
    decreases n,
{
    if n == 0 {
        0
    } else {
        peak_total(a, b, (n - 1) as nat) + peak(a[n - 1], b[n - 1])
    }
}

/// Sample `i` of the rendered difference: white where the inputs agree.
pub open spec fn rendered_sample(a: Seq<u8>, b: Seq<u8>, i: int) -> u8 {
    (255 - delta(a[i], b[i])) as u8
}

/// The rendered difference of sample buffers `a` and `b`.
pub open spec fn rendered(a: Seq<u8>, b: Seq<u8>) -> Seq<u8> {
    Seq::new(a.len(), |i: int| rendered_sample(a, b, i))
}

/// The score of a comparison as an exact ratio: the percentage is
/// `100 * difference / maximum`, and zero when `maximum` is zero.
#[derive(Clone, Copy, Debug, PartialEq, Eq, Structural)]
pub struct DiffScore {
    pub difference: u128,
    pub maximum: u128,
}

impl DiffScore {
    /// The score of comparing sample buffers `a` and `b`.
    pub open spec fn of(a: Seq<u8>, b: Seq<u8>) -> DiffScore {
        DiffScore {
            difference: delta_total(a, b, a.len()) as u128,
            maximum: peak_total(a, b, a.len()) as u128,
        }
    }

    /// Whether the compared images are identical sample for sample.
    pub fn is_zero(&self) -> (r: bool)
        ensures
            r == (self.difference == 0),
    {
        self.difference == 0
    }
}

/// Absolute difference of two samples, computed without wrapping.
pub fn subtract_and_prevent_overflow(a: u8, b: u8) -> (r: u8)
    ensures
        r as int == delta(a, b),
{
    if a > b {
        a - b
    } else {
        b - a
    }
}

proof fn lemma_totals_bounded(a: Seq<u8>, b: Seq<u8>, n: nat)
    requires
        n <= a.len(),
        n <= b.len(),
    ensures
        0 <= delta_total(a, b, n) <= peak_total(a, b, n) <= 255 * n,
    decreases n,
{
    if n > 0 {
        lemma_totals_bounded(a, b, (n - 1) as nat);
    }
}

/// Compares two images of equal size. Each sample of the result is
/// `255 - |a - b|`; the score accumulates `|a - b|` against `max(a, b)`.
pub fn subtract_image(a: &RgbaImage, b: &RgbaImage) -> (r: (DiffScore, RgbaImage))
    requires
        a.wf(),
        b.wf(),
        a.width == b.width,
        a.height == b.height,
    ensures
        r.0 == DiffScore::of(a.pixels@, b.pixels@),
        r.0.difference <= r.0.maximum,
        r.1.wf(),
        r.1.width == a.width,
        r.1.height == a.height,
        r.1.pixels@ == rendered(a.pixels@, b.pixels@),
{
    let n = a.pixels.len();
    let mut out: Vec<u8> = Vec::with_capacity(n);
    let mut difference: u128 = 0;
    let mut maximum: u128 = 0;
    let mut i: usize = 0;
    while i < n
        invariant
            n == a.pixels@.len(),
            n == b.pixels@.len(),
            i <= n,
            out@.len() == i,
            difference == delta_total(a.pixels@, b.pixels@, i as nat),
            maximum == peak_total(a.pixels@, b.pixels@, i as nat),
            forall|j: int| 0 <= j < i ==> #[trigger] out@[j] == rendered_sample(a.pixels@, b.pixels@, j),
        decreases n - i,
    {
        let x = a.pixels[i];
        let y = b.pixels[i];
        let d = subtract_and_prevent_overflow(x, y);
        proof {
            lemma_totals_bounded(a.pixels@, b.pixels@, i as nat);
            assert(255 * (i as int) < 255 * 0x1_0000_0000_0000_0000int) by (nonlinear_arith)
                requires
                    (i as int) < 0x1_0000_0000_0000_0000int,
            ;
        }
        difference = difference + d as u128;
        maximum = maximum + if x > y { x as u128 } else { y as u128 };
        out.push(255 - d);
        i = i + 1;
    }
    proof {
        lemma_totals_bounded(a.pixels@, b.pixels@, n as nat);
        assert(out@ =~= rendered(a.pixels@, b.pixels@));
    }
    (DiffScore { difference, maximum }, RgbaImage { width: a.width, height: a.height, pixels: out })
}

proof fn lemma_self_delta_zero(a: Seq<u8>, n: nat)
    requires
        n <= a.len(),
    ensures
        delta_total(a, a, n) == 0,
    decreases n,
{
    if n > 0 {
        lemma_self_delta_zero(a, (n - 1) as nat);
    }
}

proof fn lemma_totals_swap(a: Seq<u8>, b: Seq<u8>, n: nat)
    requires
        n <= a.len(),
        n <= b.len(),
    ensures
        delta_total(a, b, n) == delta_total(b, a, n),
        peak_total(a, b, n) == peak_total(b, a, n),
    decreases n,
{
    if n > 0 {
        lemma_totals_swap(a, b, (n - 1) as nat);
    }
}

proof fn lemma_sample_count_bound(img: &RgbaImage)
    requires
        img.wf(),
    ensures
        img.pixels@.len() <= 4 * 0xffff_ffffint * 0xffff_ffffint,
{
    assert((img.width as int) * (img.height as int) <= 0xffff_ffffint * 0xffff_ffffint)
        by (nonlinear_arith)
        requires
            img.width <= 0xffff_ffff,
            img.height <= 0xffff_ffff,
    ;
}

/// Comparing an image with an identical copy of itself finds no difference:
/// the score is zero.
pub proof fn identical_images_score_zero(a: &RgbaImage)
    requires
        a.wf(),
    ensures
        DiffScore::of(a.pixels@, a.pixels@).difference == 0,
        rendered(a.pixels@, a.pixels@) == Seq::new(a.pixels@.len(), |i: int| 255u8),
{
    lemma_self_delta_zero(a.pixels@, a.pixels@.len());
    assert(rendered(a.pixels@, a.pixels@) =~= Seq::new(a.pixels@.len(), |i: int| 255u8));
}

/// Swapping the two inputs of a comparison changes neither the score nor the
/// rendered difference, since `|a - b| == |b - a|` for every sample.
pub proof fn comparison_is_symmetric(a: &RgbaImage, b: &RgbaImage)
    requires
        a.wf(),
        b.wf(),
        a.width == b.width,
        a.height == b.height,
    ensures
        DiffScore::of(a.pixels@, b.pixels@) == DiffScore::of(b.pixels@, a.pixels@),
        rendered(a.pixels@, b.pixels@) == rendered(b.pixels@, a.pixels@),
{
    lemma_totals_swap(a.pixels@, b.pixels@, a.pixels@.len());
    assert(rendered(a.pixels@, b.pixels@) =~= rendered(b.pixels@, a.pixels@));
}

/// The score of two images of equal size lies between 0 and 100 percent:
/// the summed difference never exceeds the summed maximum.
pub proof fn score_within_percent_range(a: &RgbaImage, b: &RgbaImage)
    requires
        a.wf(),
        b.wf(),
        a.width == b.width,
        a.height == b.height,
    ensures
        0 <= delta_total(a.pixels@, b.pixels@, a.pixels@.len()),
        delta_total(a.pixels@, b.pixels@, a.pixels@.len()) <= peak_total(
            a.pixels@,
            b.pixels@,
            a.pixels@.len(),
        ),
        DiffScore::of(a.pixels@, b.pixels@).difference <= DiffScore::of(
            a.pixels@,
            b.pixels@,
        ).maximum,
{
    lemma_sample_count_bound(a);
    lemma_totals_bounded(a.pixels@, b.pixels@, a.pixels@.len());
}

} // verus!
