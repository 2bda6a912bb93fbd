//! An RGB raster held as plain bytes, and its resampling to another size.

use crate::geometry::lemma_product_bounds;
use vstd::prelude::*;

verus! {

/// One pixel: three 8-bit channel intensities.
#[derive(Clone, Copy, Debug, PartialEq, Eq, Structural)]
pub struct Rgb {
    pub r: u8,
    pub g: u8,
    pub b: u8,
}

/// The resampling filter used when an image changes size.
#[derive(Clone, Copy, Debug, PartialEq, Eq, Structural)]
pub enum FilterType {
    Nearest,
    Triangle,
    CatmullRom,
    Gaussian,
    Lanczos3,
}

/// What a `Pixmap` is: its size in pixels and its samples, row by row from
/// the top, three per pixel in the order red, green, blue.
pub struct Raster {
    pub width: int,
    pub height: int,
    pub samples: Seq<u8>,
}

/// The samples that `image::imageops::resize` returns for an RGB image of
/// `width` by `height` pixels with the given samples, resampled to
/// `new_width` by `new_height` pixels with `filter`.
pub uninterp spec fn resampled(
    samples: Seq<u8>,
    width: int,
    height: int,
    new_width: int,
    new_height: int,
    filter: FilterType,
) -> Seq<u8>;

impl Raster {
    /// Whether there are exactly three samples for every pixel.
    pub open spec fn wf(self) -> bool {
        &&& 0 <= self.width
        &&& 0 <= self.height
        &&& self.samples.len() == 3 * (self.width * self.height)
    }

    /// The pixel in column `x` of row `y`, both counted from the top left.
    pub open spec fn pixel(self, x: int, y: int) -> Rgb {
        let first = 3 * (y * self.width + x);
        Rgb { r: self.samples[first], g: self.samples[first + 1], b: self.samples[first + 2] }
    }

    /// Whether the raster can be resampled to `new_width` by `new_height`
    /// pixels: neither size is empty, and both the result and the
    /// intermediate image of 16 bytes per pixel fit in one allocation.
    pub open spec fn resizable(self, new_width: int, new_height: int) -> bool {
        &&& 1 <= self.width
        &&& 1 <= self.height
        &&& 1 <= new_width
        &&& 1 <= new_height
        &&& 16 * (self.width * new_height) <= isize::MAX
        &&& 3 * (new_width * new_height) <= isize::MAX
    }

    /// The raster resampled to `new_width` by `new_height` pixels: itself
    /// where that is its size already.
    pub open spec fn resized(self, new_width: int, new_height: int, filter: FilterType) -> Raster {
        if new_width == self.width && new_height == self.height {
            self
        } else {
            Raster {
                width: new_width,
                height: new_height,
                samples: resampled(self.samples, self.width, self.height, new_width, new_height, filter),
            }
        }
    }
}

/// An RGB image of 8-bit channels, owned as one vector of samples.
pub struct Pixmap {
    width: u32,
    height: u32,
    samples: Vec<u8>,
}

impl View for Pixmap {
    type V = Raster;

    closed spec fn view(&self) -> Raster {
        Raster { width: self.width as int, height: self.height as int, samples: self.samples@ }
    }
}

/// Calls `image::imageops::resize` on the RGB image that `samples` holds and
/// hands back the samples of the result.
///
/// Trusted: the result is `resampled` of the arguments, that is, the outside
/// function computes from its arguments alone; it has three samples for each
/// pixel of the new size; and where the new size is the old one it is a copy
/// of the input, which the outside function makes without resampling. The
/// outside function allocates an intermediate image of `width` by
/// `new_height` pixels with four 32-bit channels; `requires` keeps both
/// allocations within what a vector may hold and both images non-empty.
#[verifier::external_body]
fn resample(
    samples: &Vec<u8>,
    width: u32,
    height: u32,
    new_width: u32,
    new_height: u32,
    filter: FilterType,
) -> (out: Vec<u8>)
    requires
        samples@.len() == 3 * (width * height),
        1 <= width,
        1 <= height,
        1 <= new_width,
        1 <= new_height,
        16 * (width * new_height) <= isize::MAX,
        3 * (new_width * new_height) <= isize::MAX,
    ensures
        out@ == resampled(
            samples@,
            width as int,
            height as int,
            new_width as int,
            new_height as int,
            filter,
        ),
        out@.len() == 3 * (new_width * new_height),
        new_width == width && new_height == height ==> out@ == samples@,
{
    let kernel = match filter {
        FilterType::Nearest => image::imageops::FilterType::Nearest,
        FilterType::Triangle => image::imageops::FilterType::Triangle,
        FilterType::CatmullRom => image::imageops::FilterType::CatmullRom,
        FilterType::Gaussian => image::imageops::FilterType::Gaussian,
        FilterType::Lanczos3 => image::imageops::FilterType::Lanczos3,
    };
    let source =
        image::ImageBuffer::<image::Rgb<u8>, &[u8]>::from_raw(width, height, samples.as_slice()).unwrap();
    image::imageops::resize(&source, new_width, new_height, kernel).into_raw()
}

impl Pixmap {
    #[verifier::type_invariant]
    spec fn sample_count_matches(self) -> bool {
        self.samples@.len() == 3 * (self.width * self.height)
    }

    /// Makes an image of `width` by `height` pixels from its samples, row by
    /// row from the top, three per pixel. `None` where the number of samples
    /// is not three times the number of pixels.
    pub fn new(width: u32, height: u32, samples: Vec<u8>) -> (made: Option<Pixmap>)
        ensures
            made is Some <==> samples@.len() == 3 * (width * height),
            made matches Some(pixmap) ==> pixmap@ == (Raster {
                width: width as int,
                height: height as int,
                samples: samples@,
            }),
    {
        proof {
            lemma_product_bounds(width as int, height as int, u32::MAX as int, u32::MAX as int);
        }
        let pixels: u64 = (width as u64) * (height as u64);
        let given: u64 = samples.len() as u64;
        if given % 3 == 0 && given / 3 == pixels {
            Some(Pixmap { width, height, samples })
        } else {
            None
        }
    }

    /// The width in pixels.
    pub fn width(&self) -> (w: u32)
        ensures
            w == self@.width,
            self@.wf(),
    {
        proof {
            use_type_invariant(self);
        }
        self.width
    }

    /// The height in pixels.
    pub fn height(&self) -> (h: u32)
        ensures
            h == self@.height,
            self@.wf(),
    {
        proof {
            use_type_invariant(self);
        }
        self.height
    }

    /// The samples, row by row from the top, three per pixel.
    pub fn samples(&self) -> (all: &Vec<u8>)
        ensures
            all@ == self@.samples,
            self@.wf(),
    {
        proof {
            use_type_invariant(self);
        }
        &self.samples
    }

    /// The pixel in column `x` of row `y`; `None` outside the image.
    pub fn pixel(&self, x: u32, y: u32) -> (found: Option<Rgb>)
        ensures
            found is Some <==> x < self@.width && y < self@.height,
            found matches Some(rgb) ==> rgb == self@.pixel(x as int, y as int),
    {
        proof {
            use_type_invariant(self);
        }
        if x >= self.width || y >= self.height {
            return None;
        }
        proof {
            lemma_pixel_in_range(self@, x as int, y as int);
            assert(3 * (y * self.width + x) + 2 < self.samples.len());
        }
        let first: usize = 3 * (y as usize * (self.width as usize) + x as usize);
        Some(Rgb { r: self.samples[first], g: self.samples[first + 1], b: self.samples[first + 2] })
    }

    /// The image resampled to exactly `new_width` by `new_height` pixels,
    /// whatever its own proportions. `None` where it cannot be resampled: it
    /// or the new size is empty, or the work would not fit in memory.
    pub fn resize(&self, new_width: u32, new_height: u32, filter: FilterType) -> (out: Option<Pixmap>)
        ensures
            self@.wf(),
            out is Some <==> self@.resizable(new_width as int, new_height as int),
            out matches Some(pixmap) ==> pixmap@ == self@.resized(
                new_width as int,
                new_height as int,
                filter,
            ),
            out matches Some(pixmap) ==> pixmap@.wf(),
    {
        proof {
            use_type_invariant(self);
        }
        if self.width == 0 || self.height == 0 || new_width == 0 || new_height == 0 {
            return None;
        }
        proof {
            lemma_product_bounds(self.width as int, new_height as int, u32::MAX as int, u32::MAX as int);
            lemma_product_bounds(new_width as int, new_height as int, u32::MAX as int, u32::MAX as int);
        }
        let limit: u64 = isize::MAX as u64;
        let between: u64 = (self.width as u64) * (new_height as u64);
        let after: u64 = (new_width as u64) * (new_height as u64);
        if between > limit / 16 || after > limit / 3 {
            return None;
        }
        let samples = resample(&self.samples, self.width, self.height, new_width, new_height, filter);
        Some(Pixmap { width: new_width, height: new_height, samples })
    }
}

/// A resampled raster has exactly the size asked for, whatever its size was
/// and whatever the filter.
pub proof fn lemma_resized_size(raster: Raster, new_width: int, new_height: int, filter: FilterType)
    ensures
        raster.resized(new_width, new_height, filter).width == new_width,
        raster.resized(new_width, new_height, filter).height == new_height,
{
}

/// The three samples of a pixel inside the image lie inside its samples.
pub proof fn lemma_pixel_in_range(raster: Raster, x: int, y: int)
    requires
        raster.wf(),
        0 <= x < raster.width,
        0 <= y < raster.height,
    ensures
        0 <= y * raster.width,
        0 <= 3 * (y * raster.width + x),
        3 * (y * raster.width + x) + 2 < raster.samples.len(),
{
    lemma_product_bounds(y, raster.width, y, raster.width);
    lemma_product_bounds(y + 1, raster.width, raster.height, raster.width);
    assert((y + 1) * raster.width == y * raster.width + raster.width) by (nonlinear_arith);
    assert(raster.height * raster.width == raster.width * raster.height) by (nonlinear_arith);
}

} // verus!
