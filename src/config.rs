use vstd::prelude::*;

verus! {

/// The parameters of a render run.
#[derive(Clone, Copy, Debug, PartialEq, Eq, Structural)]
pub struct RenderConfig {
    /// Index of the first frame.
    pub first_frame: u32,
    /// One past the index of the last frame.
    pub end_frame: u32,
    pub width: u32,
    pub height: u32,
    /// Frames admitted before the scheduler waits for the whole batch.
    pub max_concurrency: u32,
}

impl Default for RenderConfig {
    /// Frames 1 to 312 at 1920 x 1080, in batches bounded by 32.
    fn default() -> (c: RenderConfig)
        ensures
            c == (RenderConfig {
                first_frame: 1,
                end_frame: 313,
                width: 1920,
                height: 1080,
                max_concurrency: 32,
            }),
    {
        RenderConfig { first_frame: 1, end_frame: 313, width: 1920, height: 1080, max_concurrency: 32 }
    }
}

} // verus!
