use vstd::prelude::*;

verus! {

/// The failures that the scan, the text policy and the matcher report.
#[derive(Debug, Clone, Copy, PartialEq, Eq, Structural)]
pub enum ScanError {
    /// The container holds no video stream that can be selected.
    Stream,
    /// The decoder or the scaler could not be built, or a frame not converted.
    Decode,
    /// A raw pixel buffer does not hold `width * height * 3` bytes.
    FrameBuffer,
    /// Text extraction returned no usable line.
    NoTextDetected,
    /// The catalog to match against is empty.
    NotFound,
}

} // verus!
