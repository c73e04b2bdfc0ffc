//! Audio capture: its errors, and a capture that plays back given audio.

use crate::text::described;
use vstd::prelude::*;
use vstd::string::*;

verus! {

/// Why a capture could not start or stop.
#[derive(Debug, PartialEq, Eq)]
pub enum CaptureError {
    Start(String),
    Stop(String),
}

impl CaptureError {
    /// The error in words.
    pub fn message(&self) -> (message: String)
        ensures
            message@ == match *self {
                CaptureError::Start(cause) => "capture start failed: "@ + cause@,
                CaptureError::Stop(cause) => "capture stop failed: "@ + cause@,
            },
            self is Start ==> message@ == described("capture start failed: "@, self->Start_0@),
            self is Stop ==> message@ == described("capture stop failed: "@, self->Stop_0@),
    {
        match self {
            CaptureError::Start(cause) => String::from("capture start failed: ").concat(
                cause.as_str(),
            ),
            CaptureError::Stop(cause) => String::from("capture stop failed: ").concat(
                cause.as_str(),
            ),
        }
    }
}

/// A capture that hands out the same 16-bit frames every time.
#[derive(Debug)]
pub struct MockCapture {
    pub frames: Vec<i16>,
}

impl Default for MockCapture {
    fn default() -> (capture: Self)
        ensures
            capture.frames@ == Seq::<i16>::empty(),
    {
        MockCapture { frames: Vec::new() }
    }
}

impl MockCapture {
    /// Starts the capture, which always works.
    pub fn start(&mut self) -> (result: Result<(), CaptureError>)
        ensures
            result is Ok,
            *final(self) == *old(self),
    {
        Ok(())
    }

    /// Stops the capture, which always works, and returns the frames. Each stands for the sample
    /// that is the frame divided by 32768.
    pub fn stop(&mut self) -> (result: Result<Vec<i16>, CaptureError>)
        ensures
            match result {
                Ok(frames) => frames@ == old(self).frames@,
                Err(_) => false,
            },
            *final(self) == *old(self),
    {
        let mut frames: Vec<i16> = Vec::new();
        frames.extend_from_slice(self.frames.as_slice());
        assert(frames@ == self.frames@);
        Ok(frames)
    }
}

} // verus!
