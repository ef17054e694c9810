use vstd::prelude::*;

use crate::error::ScanError;

verus! {

/// A frame converted to 24-bit RGB: `width * height` pixels, three bytes each,
/// row by row.
pub struct RgbFrame {
    pub width: u32,
    pub height: u32,
    pub data: Vec<u8>,
}

/// Whether `len` bytes are exactly the pixels of a `width` by `height` frame.
pub open spec fn fits(width: u32, height: u32, len: int) -> bool {
    len == width as int * height as int * 3
}

/// The test that a single pixel passes when it shows the marker colour.
pub open spec fn qualifies(r: u8, g: u8, b: u8) -> bool {
    b > 230 && r < 180 && g < 235
}

/// Whether pixel `k` of the buffer `data` passes the colour test.
pub open spec fn pixel_qualifies(data: Seq<u8>, k: int) -> bool {
    qualifies(data[3 * k], data[3 * k + 1], data[3 * k + 2])
}

/// How many of the first `n` pixels of `data` pass the colour test.
pub open spec fn count_qualifying(data: Seq<u8>, n: nat) -> nat
    decreases n,
{
    if n == 0 {
        0
    } else {
        count_qualifying(data, (n - 1) as nat) + if pixel_qualifies(data, n - 1) {
            1nat
        } else {
            0nat
        }
    }
}

/// Whether more than four fifths of the `n` pixels of `data` pass the test.
pub open spec fn dominant(data: Seq<u8>, n: nat) -> bool {
    5 * count_qualifying(data, n) > 4 * n
}

impl RgbFrame {
    /// The buffer holds exactly the frame's pixels.
    pub open spec fn wf(&self) -> bool {
        fits(self.width, self.height, self.data@.len() as int)
    }

    /// The number of pixels in the frame.
    pub open spec fn pixel_count(&self) -> nat {
        (self.width as int * self.height as int) as nat
    }

    /// Whether the frame shows the marker colour over more than 80% of it.
    pub open spec fn is_marker(&self) -> bool {
        dominant(self.data@, self.pixel_count())
    }

    /// Builds a frame from a raw buffer, or nothing when the buffer length is
    /// not `width * height * 3`.
    pub fn from_raw(width: u32, height: u32, data: Vec<u8>) -> (r: Option<RgbFrame>)
        ensures
            fits(width, height, data@.len() as int) ==> r == Some(
                RgbFrame { width, height, data },
            ),
            !fits(width, height, data@.len() as int) ==> r.is_none(),
    {
        let len = data.len();
        proof {
            assert((width as int) * (height as int) <= 0x1_0000_0000 * 0x1_0000_0000)
                by (nonlinear_arith);
        }
        if (width as u128) * (height as u128) * 3 == len as u128 {
            Some(RgbFrame { width, height, data })
        } else {
            None
        }
    }

    /// The width in pixels.
    pub fn width(&self) -> (r: u32)
        ensures
            r == self.width,
    {
        self.width
    }

    /// The height in pixels.
    pub fn height(&self) -> (r: u32)
        ensures
            r == self.height,
    {
        self.height
    }

    /// The pixel bytes, row by row.
    pub fn as_raw(&self) -> (r: &Vec<u8>)
        ensures
            r@ == self.data@,
    {
        &self.data
    }

    /// Gives up the frame and returns its pixel bytes.
    pub fn into_raw(self) -> (r: Vec<u8>)
        ensures
            r@ == self.data@,
    {
        self.data
    }
}

/// Counts the pixels of a well-formed frame that pass the colour test.
pub fn count_marker_pixels(frame: &RgbFrame) -> (r: usize)
    requires
        frame.wf(),
    ensures
        r as nat == count_qualifying(frame.data@, frame.pixel_count()),
{
    let len = frame.data.len();
    let n = len / 3;
    proof {
        let w = frame.width as int;
        let h = frame.height as int;
        assert(len as int == (w * h) * 3) by (nonlinear_arith)
            requires
                len as int == w * h * 3,
        ;
        assert(n as int == w * h);
    }
    let mut i: usize = 0;
    let mut count: usize = 0;
    while i < n
        invariant
            i <= n,
            3 * n <= len,
            len == frame.data@.len(),
            n as nat == frame.pixel_count(),
            count as nat == count_qualifying(frame.data@, i as nat),
            count <= i,
        decreases n - i,
    {
        let p = 3 * i;
        let r = frame.data[p];
        let g = frame.data[p + 1];
        let b = frame.data[p + 2];
        if b > 230 && r < 180 && g < 235 {
            count = count + 1;
        }
        i = i + 1;
    }
    count
}

/// Returns the frame when more than 80% of its pixels pass the colour test,
/// and nothing otherwise.
pub fn classify(frame: RgbFrame) -> (r: Option<RgbFrame>)
    requires
        frame.wf(),
    ensures
        frame.is_marker() ==> r == Some(frame),
        !frame.is_marker() ==> r.is_none(),
{
    let count = count_marker_pixels(&frame);
    let n = frame.data.len() / 3;
    if (count as u128) * 5 > (n as u128) * 4 {
        Some(frame)
    } else {
        None
    }
}

/// Rebuilds a frame from a raw RGB buffer and classifies it.
pub fn is_blue_dominant(width: u32, height: u32, data: Vec<u8>) -> (r: Result<
    Option<RgbFrame>,
    ScanError,
>)
    ensures
        !fits(width, height, data@.len() as int) ==> r == Err::<Option<RgbFrame>, ScanError>(
            ScanError::FrameBuffer,
        ),
        fits(width, height, data@.len() as int) && dominant(
            data@,
            (width as int * height as int) as nat,
        ) ==> r == Ok::<Option<RgbFrame>, ScanError>(Some(RgbFrame { width, height, data })),
        fits(width, height, data@.len() as int) && !dominant(
            data@,
            (width as int * height as int) as nat,
        ) ==> r == Ok::<Option<RgbFrame>, ScanError>(None),
{
    match RgbFrame::from_raw(width, height, data) {
        Some(frame) => Ok(classify(frame)),
        None => Err(ScanError::FrameBuffer),
    }
}

/// Classification is a function of the frame's size and pixel bytes alone:
/// frames that agree on those get the same verdict.
pub proof fn lemma_classify_deterministic(a: RgbFrame, b: RgbFrame)
    requires
        a.width == b.width,
        a.height == b.height,
        a.data@ == b.data@,
    ensures
        a.is_marker() == b.is_marker(),
{
}

} // verus!
