//! The latest annotated frame of the detection pipeline.
use vstd::prelude::*;

verus! {

/// Holds the latest annotated frame as an encoded image, or nothing.
#[derive(Debug, Clone)]
pub struct PreviewBuffer {
    pub frame: Vec<u8>,
}

/// Start without a frame.
pub fn new_object_detection_preview_buffer() -> (b: PreviewBuffer)
    ensures
        b.frame@ == Seq::<u8>::empty(),
{
    PreviewBuffer { frame: Vec::new() }
}

impl PreviewBuffer {
    /// Replace the frame.
    pub fn store(&mut self, image: &[u8])
        ensures
            final(self).frame@ == image@,
    {
        self.frame = Vec::new();
        self.frame.extend_from_slice(image);
        assert(self.frame@ =~= image@);
    }

    /// Whether there is a frame to show.
    pub fn has_frame(&self) -> (b: bool)
        ensures
            b == (self.frame@.len() > 0),
    {
        self.frame.len() > 0
    }
}

} // verus!
