//! Textures whose colour lookup needs no arithmetic on coordinates: a solid
//! colour, and the texel lookup of an image texture.

use vstd::prelude::*;

use glam::DVec3;

verus! {

/// A texture of one colour everywhere.
#[derive(Clone, Copy, Debug)]
pub struct SolidColor {
    color: DVec3,
}

impl SolidColor {
    /// The texture's colour.
    pub closed spec fn color_spec(&self) -> DVec3 {
        self.color
    }

    /// The texture of the given colour.
    pub fn new(color: DVec3) -> (r: Self)
        ensures
            r.color_spec() == color,
    {
        Self { color }
    }

    /// The colour at every point.
    pub fn color(&self) -> (r: DVec3)
        ensures
            r == self.color_spec(),
    {
        self.color
    }
}

/// What an encoded image (PNG, JPEG) decodes to: its samples as 8-bit RGB,
/// row by row, with its width and height; `None` where the bytes are not an
/// image of a supported format.
pub uninterp spec fn decoded_rgb(bytes: Seq<u8>) -> Option<(Seq<u8>, u32, u32)>;

/// Relies on `image::load_from_memory`: it guesses the format from the bytes
/// and decodes them; the image is then converted to 8-bit RGB. PNG decoding
/// is integer arithmetic throughout, and JPEG decoding is built with
/// `jpeg-decoder`'s `platform_independent` feature, which leaves out the
/// processor-specific paths, so the samples depend on the bytes alone.
#[verifier::external_body]
fn decode_rgb(bytes: &[u8]) -> (r: Option<(Vec<u8>, u32, u32)>)
    ensures
        match r {
            None => decoded_rgb(bytes@) is None,
            Some((d, w, h)) => decoded_rgb(bytes@) == Some((d@, w, h)),
        },
{
    match image::load_from_memory(bytes) {
        Ok(img) => {
            let rgb = img.to_rgb8();
            let (w, h) = rgb.dimensions();
            Some((rgb.into_raw(), w, h))
        },
        Err(_) => None,
    }
}

/// Whether `len` bytes are exactly three samples for each of `width * height`
/// pixels.
pub open spec fn holds_rgb(len: nat, width: nat, height: nat) -> bool {
    len == 3 * width * height
}

/// `i`, moved down onto the last of `n` positions if it lies past it.
pub open spec fn clamp_index(i: nat, n: nat) -> nat {
    if i < n { i } else { (n - 1) as nat }
}

/// The position in row-major RGB data of the first sample of pixel `(i, j)`.
pub open spec fn texel_offset(width: nat, i: nat, j: nat) -> nat {
    3 * i + 3 * width * j
}

/// The red, green and blue samples of pixel `(i, j)` of an RGB image of the
/// given width and height, the pixel position being clamped to the image.
pub open spec fn texel_at(data: Seq<u8>, width: nat, height: nat, i: nat, j: nat) -> (u8, u8, u8) {
    let o = texel_offset(width, clamp_index(i, width), clamp_index(j, height)) as int;
    (data[o], data[o + 1], data[o + 2])
}

/// An image held as 8-bit RGB samples, row by row; the empty image stands for
/// one whose data could not be had.
#[derive(Debug)]
pub struct ImageTexture {
    data: Vec<u8>,
    width: usize,
    height: usize,
}

impl ImageTexture {
    #[verifier::type_invariant]
    spec fn well_formed(&self) -> bool {
        holds_rgb(self.data@.len(), self.width as nat, self.height as nat)
    }

    /// The samples, row by row.
    pub closed spec fn samples(&self) -> Seq<u8> {
        self.data@
    }

    /// The width in pixels.
    pub closed spec fn width_spec(&self) -> nat {
        self.width as nat
    }

    /// The height in pixels.
    pub closed spec fn height_spec(&self) -> nat {
        self.height as nat
    }

    /// The image with no pixels.
    pub fn empty() -> (r: Self)
        ensures
            r.samples().len() == 0,
            r.width_spec() == 0,
            r.height_spec() == 0,
    {
        Self { data: Vec::new(), width: 0, height: 0 }
    }

    /// The image of the given samples, if they are exactly three for each
    /// pixel; the empty image otherwise.
    pub fn from_rgb(data: Vec<u8>, width: usize, height: usize) -> (r: Self)
        ensures
            holds_rgb(data@.len(), width as nat, height as nat) ==> {
                &&& r.samples() == data@
                &&& r.width_spec() == width
                &&& r.height_spec() == height
            },
            !holds_rgb(data@.len(), width as nat, height as nat) ==> {
                &&& r.samples().len() == 0
                &&& r.width_spec() == 0
                &&& r.height_spec() == 0
            },
    {
        let n = data.len();
        match width.checked_mul(height) {
            Some(pixels) => match pixels.checked_mul(3) {
                Some(len) => {
                    assert(len == 3 * (width as int) * (height as int)) by (nonlinear_arith)
                        requires
                            pixels == (width as int) * (height as int),
                            len == (pixels as int) * 3,
                    ;
                    if len == n {
                        Self { data, width, height }
                    } else {
                        Self::empty()
                    }
                },
                None => {
                    assert(3 * (width as int) * (height as int) > usize::MAX) by (nonlinear_arith)
                        requires
                            pixels == (width as int) * (height as int),
                            (pixels as int) * 3 > usize::MAX,
                    ;
                    Self::empty()
                },
            },
            None => {
                assert(3 * (width as int) * (height as int) > usize::MAX) by (nonlinear_arith)
                    requires
                        (width as int) * (height as int) > usize::MAX,
                ;
                Self::empty()
            },
        }
    }

    /// The image that the encoded bytes (PNG or JPEG) decode to; the empty
    /// image if they do not decode.
    pub fn from_encoded(bytes: &[u8]) -> (r: Self)
        ensures
            match decoded_rgb(bytes@) {
                Some((d, w, h)) => if holds_rgb(d.len(), w as nat, h as nat) {
                    &&& r.samples() == d
                    &&& r.width_spec() == w
                    &&& r.height_spec() == h
                } else {
                    &&& r.samples().len() == 0
                    &&& r.width_spec() == 0
                    &&& r.height_spec() == 0
                },
                None => {
                    &&& r.samples().len() == 0
                    &&& r.width_spec() == 0
                    &&& r.height_spec() == 0
                },
            },
    {
        match decode_rgb(bytes) {
            Some((data, w, h)) => Self::from_rgb(data, w as usize, h as usize),
            None => Self::empty(),
        }
    }

    /// The width in pixels.
    pub fn width(&self) -> (r: usize)
        ensures
            r == self.width_spec(),
    {
        self.width
    }

    /// The height in pixels.
    pub fn height(&self) -> (r: usize)
        ensures
            r == self.height_spec(),
    {
        self.height
    }

    /// Whether the image has no pixels.
    pub fn is_empty(&self) -> (r: bool)
        ensures
            r == (self.samples().len() == 0),
    {
        self.data.len() == 0
    }

    /// The red, green and blue samples of pixel `(i, j)`, counted from the
    /// top left; a position past the last column or row reads that column or
    /// row. `None` for the empty image.
    pub fn texel(&self, i: usize, j: usize) -> (r: Option<(u8, u8, u8)>)
        ensures
            self.samples().len() == 0 ==> r is None,
            self.samples().len() > 0 ==> r == Some(
                texel_at(self.samples(), self.width_spec(), self.height_spec(), i as nat, j as nat),
            ),
    {
        proof {
            use_type_invariant(self);
        }
        if self.data.len() == 0 {
            return None;
        }
        let w = self.width;
        let h = self.height;
        proof {
            if w == 0 || h == 0 {
                assert(3 * (w as int) * (h as int) == 0) by (nonlinear_arith)
                    requires
                        w == 0 || h == 0,
                ;
            }
        }
        let ci = if i < w { i } else { w - 1 };
        let cj = if j < h { j } else { h - 1 };
        proof {
            let len = self.data@.len() as int;
            assert(3 * (ci as int) + 3 * (w as int) * (cj as int) + 2 < len
                && 3 * (w as int) <= len
                && 3 * (w as int) * (cj as int) <= len) by (nonlinear_arith)
                requires
                    len == 3 * (w as int) * (h as int),
                    0 <= ci < w,
                    0 <= cj < h,
            ;
        }
        let o = 3 * ci + 3 * w * cj;
        Some((self.data[o], self.data[o + 1], self.data[o + 2]))
    }
}

impl Clone for ImageTexture {
    fn clone(&self) -> (r: Self)
        ensures
            r.samples() == self.samples(),
            r.width_spec() == self.width_spec(),
            r.height_spec() == self.height_spec(),
    {
        proof {
            use_type_invariant(self);
        }
        let data = self.data.clone();
        assert(data@ =~= self.data@);
        Self { data, width: self.width, height: self.height }
    }
}

} // verus!
