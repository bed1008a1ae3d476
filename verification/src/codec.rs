//! Pixel buffers, resampling to thumbnail size, and JPEG encoding.
//!
//! Decoding a source file is left to the caller, who hands the decoded
//! pixels to [`PixelBuffer::new`]. Resampling is done here, pixel by pixel.
//! Compression is done by `mozjpeg`; what it returns for given pixels is
//! named [`jpeg_encoding`] and not described further.

use vstd::prelude::*;

verus! {

/// The largest width and height that a JPEG image can have.
pub const MAX_DIMENSION: usize = 65500;

/// How the bytes of a pixel are to be read.
#[derive(Clone, Copy, Debug, PartialEq, Eq, Structural)]
pub enum ColorSpace {
    /// One byte of luminance.
    Gray,
    /// Red, green, blue.
    Rgb,
    /// Red, green, blue, and a fourth byte that is not encoded.
    Rgba,
}

/// Why a decoded image was not accepted.
#[derive(Clone, Copy, Debug, PartialEq, Eq, Structural)]
pub enum DecodeError {
    /// The source could not be read or decoded.
    Unreadable,
    /// A width or height is zero or above [`MAX_DIMENSION`].
    BadDimensions,
    /// The number of bytes is not width times height times channels.
    BadLength,
}

/// Why no JPEG was produced.
#[derive(Clone, Copy, Debug, PartialEq, Eq, Structural)]
pub enum EncodeError {
    /// A target width or height is zero or above [`MAX_DIMENSION`].
    BadTarget,
    /// The encoder reported a failure.
    Codec,
}

impl ColorSpace {
    /// Bytes per pixel.
    pub open spec fn spec_channels(self) -> nat {
        match self {
            ColorSpace::Gray => 1,
            ColorSpace::Rgb => 3,
            ColorSpace::Rgba => 4,
        }
    }

    /// Bytes per pixel.
    pub fn channels(self) -> (n: usize)
        ensures
            n == self.spec_channels(),
    {
        match self {
            ColorSpace::Gray => 1,
            ColorSpace::Rgb => 3,
            ColorSpace::Rgba => 4,
        }
    }
}

/// The mathematical content of a [`PixelBuffer`]: rows from top to bottom,
/// pixels from left to right, the bytes of each pixel in a row.
pub struct PixelBufferView {
    pub width: nat,
    pub height: nat,
    pub color_space: ColorSpace,
    pub pixels: Seq<u8>,
}

/// A width or height that a JPEG image can have.
pub open spec fn is_dimension(n: int) -> bool {
    1 <= n <= MAX_DIMENSION
}

/// The place in a source row or column that a place in the target is taken
/// from.
pub open spec fn source_coord(target: int, target_len: int, source_len: int) -> int {
    target * source_len / target_len
}

impl PixelBufferView {
    /// The dimensions are in range and the bytes are as many as they ask for.
    pub open spec fn wf(self) -> bool {
        &&& is_dimension(self.width as int)
        &&& is_dimension(self.height as int)
        &&& self.pixels.len() == self.width * self.height * self.color_space.spec_channels()
    }

    /// The byte `channel` of the pixel in column `x` of row `y`.
    pub open spec fn sample(self, x: int, y: int, channel: int) -> u8 {
        self.pixels[(y * self.width + x) * self.color_space.spec_channels() + channel]
    }

    /// The bytes of this image resampled to `width` by `height`: each
    /// target pixel is the source pixel at the same relative place.
    pub open spec fn resampled_pixels(self, width: nat, height: nat) -> Seq<u8> {
        let channels = self.color_space.spec_channels() as int;
        Seq::new(
            width * height * self.color_space.spec_channels(),
            |i: int|
                {
                    let pixel = i / channels;
                    self.sample(
                        source_coord(pixel % (width as int), width as int, self.width as int),
                        source_coord(pixel / (width as int), height as int, self.height as int),
                        i % channels,
                    )
                },
        )
    }

    /// This image resampled to `width` by `height`.
    pub open spec fn resampled(self, width: nat, height: nat) -> PixelBufferView {
        PixelBufferView {
            width,
            height,
            color_space: self.color_space,
            pixels: self.resampled_pixels(width, height),
        }
    }

    /// The dimensions that are asked for: where one is left out, the
    /// source's own.
    pub open spec fn target(self, width: Option<usize>, height: Option<usize>) -> (nat, nat) {
        (
            match width {
                Some(w) => w as nat,
                None => self.width,
            },
            match height {
                Some(h) => h as nat,
                None => self.height,
            },
        )
    }

    /// What encoding this image at the dimensions asked for comes to.
    pub open spec fn encoded(self, width: Option<usize>, height: Option<usize>) -> Result<
        Seq<u8>,
        EncodeError,
    > {
        let (w, h) = self.target(width, height);
        if !is_dimension(w as int) || !is_dimension(h as int) {
            Err(EncodeError::BadTarget)
        } else {
            match jpeg_encoding(self.color_space, w, h, self.resampled_pixels(w, h)) {
                Some(bytes) => Ok(bytes),
                None => Err(EncodeError::Codec),
            }
        }
    }
}

/// What is made of a decoded image: the buffer, or why it is not accepted.
/// Dimensions are looked at before the number of bytes.
pub open spec fn accepted(width: usize, height: usize, color_space: ColorSpace, pixels: Seq<u8>) -> Result<
    PixelBufferView,
    DecodeError,
> {
    if !is_dimension(width as int) || !is_dimension(height as int) {
        Err(DecodeError::BadDimensions)
    } else if pixels.len() != width * height * color_space.spec_channels() {
        Err(DecodeError::BadLength)
    } else {
        Ok(PixelBufferView { width: width as nat, height: height as nat, color_space, pixels })
    }
}

/// What is made of a decoder's result.
pub open spec fn accepted_from(decoded: Option<(usize, usize, ColorSpace, Vec<u8>)>) -> Result<
    PixelBufferView,
    DecodeError,
> {
    match decoded {
        None => Err(DecodeError::Unreadable),
        Some((width, height, color_space, pixels)) => accepted(
            width,
            height,
            color_space,
            pixels@,
        ),
    }
}

/// The view of a buffer that was made, or the error.
pub open spec fn buffer_view(made: Result<PixelBuffer, DecodeError>) -> Result<
    PixelBufferView,
    DecodeError,
> {
    match made {
        Ok(buffer) => Ok(buffer@),
        Err(e) => Err(e),
    }
}

/// The view of an encoding result.
pub open spec fn bytes_view<E>(outcome: Result<Vec<u8>, E>) -> Result<Seq<u8>, E> {
    match outcome {
        Ok(bytes) => Ok(bytes@),
        Err(e) => Err(e),
    }
}

/// A place in the target maps to a place within the source.
pub proof fn lemma_source_coord_in_range(target: int, target_len: int, source_len: int)
    requires
        0 <= target < target_len,
        0 < source_len,
    ensures
        0 <= source_coord(target, target_len, source_len) < source_len,
{
    assert(0 <= target * source_len / target_len < source_len) by (nonlinear_arith)
        requires
            0 <= target < target_len,
            0 < source_len,
    ;
}

/// Where target and source are equally long, every place maps to itself.
pub proof fn lemma_source_coord_same_len(target: int, len: int)
    requires
        0 <= target,
        0 < len,
    ensures
        source_coord(target, len, len) == target,
{
    assert(target * len / len == target) by (nonlinear_arith)
        requires
            0 <= target,
            0 < len,
    ;
}

/// An index into `outer * inner` cells splits into a row below `outer` and a
/// column below `inner`, and is put together from them again.
pub proof fn lemma_split_index(i: int, inner: int, outer: int)
    requires
        0 < inner,
        0 <= i < outer * inner,
    ensures
        0 <= i / inner < outer,
        0 <= i % inner < inner,
        (i / inner) * inner + i % inner == i,
{
    assert(0 <= i / inner < outer && 0 <= i % inner < inner && (i / inner) * inner + i % inner
        == i) by (nonlinear_arith)
        requires
            0 < inner,
            0 <= i < outer * inner,
    ;
}

/// A cell of a grid has an index within the grid.
pub proof fn lemma_cell_index(row: int, col: int, rows: int, cols: int)
    requires
        0 <= row < rows,
        0 <= col < cols,
    ensures
        0 <= row * cols + col < rows * cols,
        row * cols + col <= (rows - 1) * cols + (cols - 1),
{
    assert(0 <= row * cols + col < rows * cols && row * cols + col <= (rows - 1) * cols + (cols
        - 1)) by (nonlinear_arith)
        requires
            0 <= row < rows,
            0 <= col < cols,
    ;
}

/// Resampling to the source's own dimensions changes nothing.
pub proof fn law_resample_same_size(image: PixelBufferView)
    requires
        image.wf(),
    ensures
        image.resampled(image.width, image.height) == image,
{
    let w = image.width as int;
    let h = image.height as int;
    let c = image.color_space.spec_channels() as int;
    let out = image.resampled_pixels(image.width, image.height);
    assert(w * h * c == image.pixels.len());
    assert forall|i: int| 0 <= i < out.len() implies out[i] == image.pixels[i] by {
        lemma_split_index(i, c, w * h);
        let pixel = i / c;
        lemma_split_index(pixel, w, h);
        lemma_source_coord_same_len(pixel % w, w);
        lemma_source_coord_same_len(pixel / w, h);
    }
    assert(out =~= image.pixels);
}

/// A resampled image has the dimensions asked for and is well formed.
pub proof fn law_resampled_has_target_size(image: PixelBufferView, width: nat, height: nat)
    requires
        image.wf(),
        is_dimension(width as int),
        is_dimension(height as int),
    ensures
        image.resampled(width, height).wf(),
        image.resampled(width, height).width == width,
        image.resampled(width, height).height == height,
{
}

/// An image held in memory.
#[derive(Debug)]
pub struct PixelBuffer {
    width: usize,
    height: usize,
    color_space: ColorSpace,
    pixels: Vec<u8>,
}

impl View for PixelBuffer {
    type V = PixelBufferView;

    closed spec fn view(&self) -> PixelBufferView {
        PixelBufferView {
            width: self.width as nat,
            height: self.height as nat,
            color_space: self.color_space,
            pixels: self.pixels@,
        }
    }
}

/// The error of `std::io`, as the encoder returns it.
#[verifier::external_type_specification]
#[verifier::external_body]
pub struct ExIoError(std::io::Error);

/// The JPEG file that `mozjpeg` makes of an image with its default
/// settings, or `None` where it reports an error.
pub uninterp spec fn jpeg_encoding(
    color_space: ColorSpace,
    width: nat,
    height: nat,
    pixels: Seq<u8>,
) -> Option<Seq<u8>>;

/// Calls `mozjpeg::Compress`: `new` with the colour space of the pixels,
/// `set_size`, `start_compress` into a `Vec`, `write_scanlines` with all
/// rows at once, and `finish`. The contract claims only that the bytes
/// returned, or the failure, depend on nothing but the arguments. The
/// preconditions keep away what makes the encoder give up: an empty image,
/// a side above 65500, and rows that are missing or left over.
#[verifier::external_body]
fn compress_jpeg(color_space: ColorSpace, width: usize, height: usize, pixels: &Vec<u8>) -> (out:
    Result<Vec<u8>, std::io::Error>)
    requires
        is_dimension(width as int),
        is_dimension(height as int),
        pixels.len() == width * height * color_space.spec_channels(),
    ensures
        match out {
            Ok(bytes) => jpeg_encoding(color_space, width as nat, height as nat, pixels@) == Some(
                bytes@,
            ),
            Err(_) => jpeg_encoding(color_space, width as nat, height as nat, pixels@) is None,
        },
{
    let space = match color_space {
        ColorSpace::Gray => mozjpeg::ColorSpace::JCS_GRAYSCALE,
        ColorSpace::Rgb => mozjpeg::ColorSpace::JCS_RGB,
        ColorSpace::Rgba => mozjpeg::ColorSpace::JCS_EXT_RGBA,
    };
    let mut settings = mozjpeg::Compress::new(space);
    settings.set_size(width, height);
    let mut writer = settings.start_compress(Vec::new())?;
    writer.write_scanlines(pixels)?;
    writer.finish()
}

/// Turns what the encoder returned into the library's own result.
pub fn encoder_outcome(outcome: Result<Vec<u8>, std::io::Error>) -> (result: Result<
    Vec<u8>,
    EncodeError,
>)
    ensures
        match outcome {
            Ok(bytes) => result == Ok::<_, EncodeError>(bytes),
            Err(_) => result == Err::<Vec<u8>, _>(EncodeError::Codec),
        },
{
    match outcome {
        Ok(bytes) => Ok(bytes),
        Err(_) => Err(EncodeError::Codec),
    }
}

impl PixelBuffer {
    #[verifier::type_invariant]
    spec fn well_formed(self) -> bool {
        self@.wf()
    }

    /// Takes in a decoded image, if its dimensions are in range and its
    /// bytes are as many as they ask for.
    pub fn new(width: usize, height: usize, color_space: ColorSpace, pixels: Vec<u8>) -> (made:
        Result<PixelBuffer, DecodeError>)
        ensures
            buffer_view(made) == accepted(width, height, color_space, pixels@),
            made matches Ok(buffer) ==> buffer@.wf(),
    {
        if width < 1 || width > MAX_DIMENSION || height < 1 || height > MAX_DIMENSION {
            return Err(DecodeError::BadDimensions);
        }
        let channels = color_space.channels();
        assert(width * height <= 65500 * 65500 && width * height * channels <= 65500 * 65500 * 4)
            by (nonlinear_arith)
            requires
                1 <= width <= 65500,
                1 <= height <= 65500,
                1 <= channels <= 4,
        ;
        let cells: u64 = (width as u64) * (height as u64) * (channels as u64);
        if pixels.len() as u64 != cells {
            return Err(DecodeError::BadLength);
        }
        Ok(PixelBuffer { width, height, color_space, pixels })
    }

    /// Takes in what a decoder came to: an image, or a failure.
    pub fn from_decoder(decoded: Option<(usize, usize, ColorSpace, Vec<u8>)>) -> (made: Result<
        PixelBuffer,
        DecodeError,
    >)
        ensures
            buffer_view(made) == accepted_from(decoded),
            made matches Ok(buffer) ==> buffer@.wf(),
    {
        match decoded {
            None => Err(DecodeError::Unreadable),
            Some((width, height, color_space, pixels)) => PixelBuffer::new(
                width,
                height,
                color_space,
                pixels,
            ),
        }
    }

    pub fn width(&self) -> (w: usize)
        ensures
            w == self@.width,
            is_dimension(w as int),
    {
        proof {
            use_type_invariant(self);
        }
        self.width
    }

    pub fn height(&self) -> (h: usize)
        ensures
            h == self@.height,
            is_dimension(h as int),
    {
        proof {
            use_type_invariant(self);
        }
        self.height
    }

    pub fn color_space(&self) -> (c: ColorSpace)
        ensures
            c == self@.color_space,
    {
        self.color_space
    }

    pub fn pixels(&self) -> (bytes: &Vec<u8>)
        ensures
            bytes@ == self@.pixels,
            self@.wf(),
    {
        proof {
            use_type_invariant(self);
        }
        &self.pixels
    }

    /// The bytes of this image at `width` by `height`.
    fn resample_pixels(&self, width: usize, height: usize) -> (out: Vec<u8>)
        requires
            is_dimension(width as int),
            is_dimension(height as int),
        ensures
            out@ == self@.resampled_pixels(width as nat, height as nat),
    {
        proof {
            use_type_invariant(self);
        }
        let channels: u64 = self.color_space.channels() as u64;
        let tw: u64 = width as u64;
        let th: u64 = height as u64;
        let sw: u64 = self.width as u64;
        let sh: u64 = self.height as u64;
        assert(tw * th <= 65500 * 65500 && sw * sh <= 65500 * 65500) by (nonlinear_arith)
            requires
                1 <= tw <= 65500,
                1 <= th <= 65500,
                1 <= sw <= 65500,
                1 <= sh <= 65500,
        ;
        let total: u64 = tw * th * channels;
        let ghost want = self@.resampled_pixels(width as nat, height as nat);
        let mut out: Vec<u8> = Vec::new();
        let mut i: u64 = 0;
        while i < total
            invariant
                i <= total,
                total == tw * th * channels,
                total == want.len(),
                channels == self@.color_space.spec_channels(),
                1 <= channels <= 4,
                tw == width,
                th == height,
                sw == self@.width,
                sh == self@.height,
                1 <= tw <= 65500,
                1 <= th <= 65500,
                1 <= sw <= 65500,
                1 <= sh <= 65500,
                self.pixels@ == self@.pixels,
                self.pixels@.len() == sw * sh * channels,
                want == self@.resampled_pixels(width as nat, height as nat),
                out@ == want.take(i as int),
            decreases total - i,
        {
            let pixel: u64 = i / channels;
            let channel: u64 = i % channels;
            proof {
                lemma_split_index(i as int, channels as int, tw * th);
                lemma_split_index(pixel as int, tw as int, th as int);
            }
            let x: u64 = pixel % tw;
            let y: u64 = pixel / tw;
            proof {
                lemma_source_coord_in_range(x as int, tw as int, sw as int);
                lemma_source_coord_in_range(y as int, th as int, sh as int);
                lemma_cell_index(x as int, 0, tw as int, sw as int);
                lemma_cell_index(y as int, 0, th as int, sh as int);
                assert(tw * sw <= 65500 * 65500 && th * sh <= 65500 * 65500) by (nonlinear_arith)
                    requires
                        1 <= tw <= 65500,
                        1 <= th <= 65500,
                        1 <= sw <= 65500,
                        1 <= sh <= 65500,
                ;
            }
            let sx: u64 = x * sw / tw;
            let sy: u64 = y * sh / th;
            proof {
                lemma_cell_index(sy as int, sx as int, sh as int, sw as int);
                assert(sh * sw == sw * sh) by (nonlinear_arith);
                lemma_cell_index(sy * sw + sx, channel as int, sw * sh, channels as int);
                assert(sw * sh * channels <= 65500 * 65500 * 4) by (nonlinear_arith)
                    requires
                        1 <= sw <= 65500,
                        1 <= sh <= 65500,
                        1 <= channels <= 4,
                ;
            }
            let at: u64 = (sy * sw + sx) * channels + channel;
            assert(at < self.pixels.len() <= usize::MAX);
            let place: usize = at as usize;
            assert(place == at);
            let byte = self.pixels[place];
            out.push(byte);
            proof {
                assert(sx == source_coord(x as int, tw as int, sw as int));
                assert(sy == source_coord(y as int, th as int, sh as int));
                assert(self@.sample(sx as int, sy as int, channel as int) == byte);
                assert(want[i as int] == self@.sample(
                    source_coord((i as int / channels as int) % (tw as int), tw as int, sw as int),
                    source_coord((i as int / channels as int) / (tw as int), th as int, sh as int),
                    i as int % channels as int,
                ));
                assert(want[i as int] == byte);
                assert(want.take(i + 1) =~= want.take(i as int).push(byte));
            }
            i += 1;
        }
        assert(want.take(total as int) =~= want);
        out
    }

    /// This image at `width` by `height`, each target pixel taken from the
    /// source pixel at the same relative place.
    pub fn resample(&self, width: usize, height: usize) -> (out: Result<PixelBuffer, EncodeError>)
        ensures
            match out {
                Ok(buffer) => is_dimension(width as int) && is_dimension(height as int)
                    && buffer@ == self@.resampled(width as nat, height as nat),
                Err(e) => e == EncodeError::BadTarget && !(is_dimension(width as int)
                    && is_dimension(height as int)),
            },
    {
        if width < 1 || width > MAX_DIMENSION || height < 1 || height > MAX_DIMENSION {
            return Err(EncodeError::BadTarget);
        }
        let pixels = self.resample_pixels(width, height);
        Ok(PixelBuffer { width, height, color_space: self.color_space, pixels })
    }

    /// Encodes this image as a JPEG file of the dimensions asked for. Where
    /// one is left out, the image keeps its own. Where they differ from the
    /// image's own, the image is resampled first.
    pub fn encode(&self, target_width: Option<usize>, target_height: Option<usize>) -> (out:
        Result<Vec<u8>, EncodeError>)
        ensures
            bytes_view(out) == self@.encoded(target_width, target_height),
    {
        proof {
            use_type_invariant(self);
        }
        let width = match target_width {
            Some(w) => w,
            None => self.width,
        };
        let height = match target_height {
            Some(h) => h,
            None => self.height,
        };
        if width < 1 || width > MAX_DIMENSION || height < 1 || height > MAX_DIMENSION {
            return Err(EncodeError::BadTarget);
        }
        if width == self.width && height == self.height {
            proof {
                law_resample_same_size(self@);
            }
            encoder_outcome(compress_jpeg(self.color_space, width, height, &self.pixels))
        } else {
            let pixels = self.resample_pixels(width, height);
            encoder_outcome(compress_jpeg(self.color_space, width, height, &pixels))
        }
    }
}

} // verus!
