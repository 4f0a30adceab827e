use vstd::prelude::*;

verus! {

/// Output image dimensions together with the sampling parameters of a render.
#[derive(Clone, Copy, Debug, PartialEq, Eq, Structural)]
pub struct Resolution {
    pub image_width: usize,
    pub image_height: usize,
    /// Number of ray samples per pixel.
    pub num_samples: usize,
    /// Max number of ray bounces.
    pub max_depth: usize,
}

impl Resolution {
    /// * `num_samples`: Number of ray samples per pixel.
    /// * `max_depth`: Max number of ray bounces.
    pub fn new(image_width: usize, image_height: usize, num_samples: usize, max_depth: usize) -> (
        r: Resolution)
        ensures
            r == (Resolution { image_width, image_height, num_samples, max_depth }),
    {
        Resolution { image_width, image_height, num_samples, max_depth }
    }
}

/// A fast preview resolution.
pub fn get_low_resolution() -> (r: Resolution)
    ensures
        r == (Resolution {
            image_width: 600usize,
            image_height: 400usize,
            num_samples: 500usize,
            max_depth: 50usize,
        }),
{
    Resolution::new(600, 400, 500, 50)
}

/// A square resolution suited to a closed-box scene.
pub fn get_cornell_square_resolution() -> (r: Resolution)
    ensures
        r == (Resolution {
            image_width: 400usize,
            image_height: 400usize,
            num_samples: 500usize,
            max_depth: 50usize,
        }),
{
    Resolution::new(400, 400, 500, 50)
}

/// A balanced quality resolution.
pub fn get_medium_resolution() -> (r: Resolution)
    ensures
        r == (Resolution {
            image_width: 1200usize,
            image_height: 800usize,
            num_samples: 500usize,
            max_depth: 50usize,
        }),
{
    Resolution::new(1200, 800, 500, 50)
}

/// A slow, high quality resolution.
pub fn get_high_resolution() -> (r: Resolution)
    ensures
        r == (Resolution {
            image_width: 1920usize,
            image_height: 1080usize,
            num_samples: 10000usize,
            max_depth: 50usize,
        }),
{
    Resolution::new(1920, 1080, 10000, 50)
}

} // verus!
