//! A scene: the size of the image, the objects that are looked at, and how
//! they are sampled.
use crate::hittable_list::HittableList;
use crate::ppm::{preamble, preamble_spec};
use vstd::prelude::*;

verus! {

/// Why a scene or its sampling was turned down.
#[derive(Debug, Clone, Copy, PartialEq, Eq, Structural)]
pub enum SceneError {
    /// The image has no column.
    ImageWidth,
    /// The image has no row.
    ImageHeight,
    /// A pixel takes no sample.
    SamplesPerPixel,
}

/// A scene for rendering: an image of a given size, and a world of objects.
pub struct Scene<H> {
    /// Width of the rendered image, in pixels.
    image_width: i32,
    /// Height of the rendered image, in pixels.
    image_height: i32,
    /// The objects of the scene.
    world: HittableList<H>,
}

impl<H> Scene<H> {
    /// Whether the scene is well formed: its image has at least one column
    /// and one row.
    pub closed spec fn wf(&self) -> bool {
        self.image_width > 0 && self.image_height > 0
    }

    /// The width of the image, in pixels.
    pub closed spec fn width(&self) -> int {
        self.image_width as int
    }

    /// The height of the image, in pixels.
    pub closed spec fn height(&self) -> int {
        self.image_height as int
    }

    /// The objects of the scene, in the order in which they were added.
    pub closed spec fn objects(&self) -> Seq<H> {
        self.world@
    }

    /// Creates a scene with the given dimensions and an empty world. An image
    /// without columns or without rows is turned down; where it has neither,
    /// the width is named.
    pub fn new(image_width: i32, image_height: i32) -> (r: Result<Scene<H>, SceneError>)
        ensures
            r is Ok <==> image_width > 0 && image_height > 0,
            r == Err::<Scene<H>, SceneError>(SceneError::ImageWidth) <==> image_width <= 0,
            r == Err::<Scene<H>, SceneError>(SceneError::ImageHeight) <==> image_width > 0
                && image_height <= 0,
            r matches Ok(scene) ==> scene.wf() && scene.width() == image_width && scene.height()
                == image_height && scene.objects() == Seq::<H>::empty(),
    {
        if image_width <= 0 {
            return Err(SceneError::ImageWidth);
        }
        if image_height <= 0 {
            return Err(SceneError::ImageHeight);
        }
        Ok(Scene { image_width, image_height, world: HittableList::new() })
    }

    /// Adds an object to the world.
    pub fn add(&mut self, new: H)
        ensures
            final(self).wf() == old(self).wf(),
            final(self).objects() == old(self).objects().push(new),
            final(self).width() == old(self).width(),
            final(self).height() == old(self).height(),
    {
        self.world.add(new);
    }

    /// The width of the image, in pixels.
    pub fn image_width(&self) -> (r: i32)
        ensures
            r == self.width(),
            self.wf() ==> r > 0,
    {
        self.image_width
    }

    /// The height of the image, in pixels.
    pub fn image_height(&self) -> (r: i32)
        ensures
            r == self.height(),
            self.wf() ==> r > 0,
    {
        self.image_height
    }

    /// The world of the scene, which rays are traced against.
    pub fn world(&self) -> (r: &HittableList<H>)
        ensures
            r@ == self.objects(),
    {
        &self.world
    }

    /// Writes the header of the image that the scene renders to.
    pub fn preamble(&self) -> (out: Vec<u8>)
        ensures
            out@ == preamble_spec(self.width(), self.height()),
    {
        preamble(self.image_width, self.image_height)
    }
}

/// How a scene is sampled: how many rays are sent through each pixel, and
/// how many bounces each of their paths may take.
#[derive(Debug, Clone, Copy, PartialEq, Eq, Structural)]
pub struct Sampling {
    samples_per_pixel: i32,
    max_depth: i32,
}

impl Sampling {
    /// The number of rays that are sent through each pixel.
    pub closed spec fn samples(&self) -> int {
        self.samples_per_pixel as int
    }

    /// The number of bounces that a path may take.
    pub closed spec fn depth(&self) -> int {
        self.max_depth as int
    }

    /// Whether the sampling is well formed: each pixel takes a sample.
    pub closed spec fn wf(&self) -> bool {
        self.samples_per_pixel > 0
    }

    /// Settles how a scene is sampled. A sampling without samples is turned
    /// down; a depth of zero or less is in order, and gives a black image.
    pub fn new(samples_per_pixel: i32, max_depth: i32) -> (r: Result<Sampling, SceneError>)
        ensures
            r is Ok <==> samples_per_pixel > 0,
            r is Err ==> r == Err::<Sampling, SceneError>(SceneError::SamplesPerPixel),
            r matches Ok(sampling) ==> sampling.wf() && sampling.samples() == samples_per_pixel
                && sampling.depth() == max_depth,
    {
        if samples_per_pixel <= 0 {
            return Err(SceneError::SamplesPerPixel);
        }
        Ok(Sampling { samples_per_pixel, max_depth })
    }

    /// The number of rays that are sent through each pixel.
    pub fn samples_per_pixel(&self) -> (r: i32)
        ensures
            r == self.samples(),
            self.wf() ==> r > 0,
    {
        self.samples_per_pixel
    }

    /// The number of bounces that a path may take.
    pub fn max_depth(&self) -> (r: i32)
        ensures
            r == self.depth(),
    {
        self.max_depth
    }
}

} // verus!
