use crate::error::TessError;
use crate::error::TessResult;
use crate::text::ascii_upper;
use vstd::prelude::*;
use vstd::string::*;

verus! {

// ---------------------------------------------------------------------------
// The format allow-list
// ---------------------------------------------------------------------------
/// The allowed image formats, uppercase.
pub open spec fn allowed_formats() -> Seq<Seq<char>> {
    seq![
        "JPEG"@,
        "JPG"@,
        "PNG"@,
        "PBM"@,
        "PGM"@,
        "PPM"@,
        "TIFF"@,
        "BMP"@,
        "GIF"@,
        "WEBP"@,
    ]
}

/// `s` uppercased letter by letter.
pub open spec fn upper_seq(s: Seq<char>) -> Seq<char> {
    s.map_values(|c: char| ascii_upper(c))
}

/// The position of the last occurrence of `c` in `s`, if any.
pub open spec fn find_last(s: Seq<char>, c: char) -> Option<int>
    decreases s.len(),
{
    if s.len() == 0 {
        None
    } else if s.last() == c {
        Some(s.len() - 1)
    } else {
        find_last(s.drop_last(), c)
    }
}

/// The extension of a path: the characters after the last dot, if a dot
/// occurs at all.
pub open spec fn ext_of(path: Seq<char>) -> Option<Seq<char>> {
    match find_last(path, '.') {
        None => None,
        Some(i) => Some(path.skip(i + 1)),
    }
}

/// The path carries an extension and, ignoring letter case, it is one of the
/// allowed image formats.
pub open spec fn ext_allowed(path: Seq<char>) -> bool {
    match ext_of(path) {
        None => false,
        Some(e) => allowed_formats().contains(upper_seq(e)),
    }
}

proof fn lemma_find_last_at(s: Seq<char>, c: char, j: int)
    requires
        0 <= j < s.len(),
        s[j] == c,
        forall|k: int| j < k < s.len() ==> s[k] != c,
    ensures
        find_last(s, c) == Some(j),
    decreases s.len(),
{
    if j == s.len() - 1 {
    } else {
        assert(s.last() != c);
        assert(forall|k: int| j < k < s.drop_last().len() ==> s.drop_last()[k] != c);
        lemma_find_last_at(s.drop_last(), c, j);
    }
}

proof fn lemma_find_last_none(s: Seq<char>, c: char)
    requires
        forall|k: int| 0 <= k < s.len() ==> s[k] != c,
    ensures
        find_last(s, c) == None::<int>,
    decreases s.len(),
{
    if s.len() > 0 {
        lemma_find_last_none(s.drop_last(), c);
    }
}

/// Compares `a`, uppercased letter by letter, with `b`.
fn eq_upper(a: &str, b: &str) -> (r: bool)
    ensures
        r == (upper_seq(a@) == b@),
{
    let na = a.unicode_len();
    let nb = b.unicode_len();
    if na != nb {
        proof {
            assert(upper_seq(a@).len() == a@.len());
        }
        return false;
    }
    let mut i: usize = 0;
    while i < na
        invariant
            na == a@.len(),
            na == b@.len(),
            0 <= i <= na,
            forall|j: int| 0 <= j < i ==> upper_seq(a@)[j] == b@[j],
        decreases na - i,
    {
        if crate::text::to_ascii_upper(a.get_char(i)) != b.get_char(i) {
            proof {
                assert(upper_seq(a@)[i as int] == ascii_upper(a@[i as int]));
            }
            return false;
        }
        proof {
            assert(upper_seq(a@)[i as int] == ascii_upper(a@[i as int]));
        }
        i += 1;
    }
    proof {
        assert(upper_seq(a@) =~= b@);
    }
    true
}

/// Accepts a path exactly when its extension, ignoring letter case, is one of
/// the allowed image formats; every other path is an `ImageFormatError`.
pub fn check_image_format(path: &str) -> (r: TessResult<()>)
    ensures
        r is Ok <==> ext_allowed(path@),
        r matches Err(e) ==> e is ImageFormatError,
{
    let n = path.unicode_len();
    // find the last dot
    let mut i: usize = n;
    while i > 0 && path.get_char(i - 1) != '.'
        invariant
            n == path@.len(),
            0 <= i <= n,
            forall|k: int| i <= k < n ==> path@[k] != '.',
        decreases i,
    {
        i -= 1;
    }
    if i == 0 {
        proof {
            lemma_find_last_none(path@, '.');
        }
        return Err(TessError::ImageFormatError);
    }
    proof {
        lemma_find_last_at(path@, '.', i - 1);
    }
    let ext = path.substring_char(i, n);
    proof {
        assert(ext@ =~= path@.skip(i as int));
        assert(ext_of(path@) == Some(path@.skip(i as int)));
    }
    let ok = eq_upper(ext, "JPEG") || eq_upper(ext, "JPG") || eq_upper(ext, "PNG") || eq_upper(
        ext,
        "PBM",
    ) || eq_upper(ext, "PGM") || eq_upper(ext, "PPM") || eq_upper(ext, "TIFF") || eq_upper(
        ext,
        "BMP",
    ) || eq_upper(ext, "GIF") || eq_upper(ext, "WEBP");
    proof {
        let u = upper_seq(ext@);
        let af = allowed_formats();
        if ok {
            assert(af.contains(u)) by {
                if u == "JPEG"@ {
                    assert(af[0] == u);
                } else if u == "JPG"@ {
                    assert(af[1] == u);
                } else if u == "PNG"@ {
                    assert(af[2] == u);
                } else if u == "PBM"@ {
                    assert(af[3] == u);
                } else if u == "PGM"@ {
                    assert(af[4] == u);
                } else if u == "PPM"@ {
                    assert(af[5] == u);
                } else if u == "TIFF"@ {
                    assert(af[6] == u);
                } else if u == "BMP"@ {
                    assert(af[7] == u);
                } else if u == "GIF"@ {
                    assert(af[8] == u);
                } else {
                    assert(af[9] == u);
                }
            }
        } else {
            assert(!af.contains(u)) by {
                if af.contains(u) {
                    let k = choose|k: int| 0 <= k < af.len() && af[k] == u;
                    assert(af[0] == "JPEG"@ && af[1] == "JPG"@ && af[2] == "PNG"@ && af[3]
                        == "PBM"@ && af[4] == "PGM"@ && af[5] == "PPM"@ && af[6] == "TIFF"@ && af[7]
                        == "BMP"@ && af[8] == "GIF"@ && af[9] == "WEBP"@);
                    assert(false);
                }
            }
        }
    }
    if ok {
        Ok(())
    } else {
        Err(TessError::ImageFormatError)
    }
}

// ---------------------------------------------------------------------------
// Raw pixel data
// ---------------------------------------------------------------------------
/// A raw three-dimensional pixel array: `height` rows of `width` pixels of
/// `channels` bytes each, stored row-major in `data`. An array with no bytes
/// stands for "no data supplied".
pub struct RawPixels {
    pub height: usize,
    pub width: usize,
    pub channels: usize,
    pub data: Vec<u8>,
}

impl RawPixels {
    /// The array holds no bytes at all.
    pub fn is_empty(&self) -> (r: bool)
        ensures
            r == (self.data@.len() == 0),
    {
        self.data.len() == 0
    }

    /// The height, width and channel count, in that order.
    pub fn dim(&self) -> (r: (usize, usize, usize))
        ensures
            r == (self.height, self.width, self.channels),
    {
        (self.height, self.width, self.channels)
    }
}

/// Copies a byte vector.
fn copy_bytes(v: &Vec<u8>) -> (r: Vec<u8>)
    ensures
        r@ == v@,
{
    let mut out: Vec<u8> = Vec::new();
    let n = v.len();
    let mut i: usize = 0;
    while i < n
        invariant
            n == v@.len(),
            0 <= i <= n,
            out@ == v@.take(i as int),
        decreases n - i,
    {
        out.push(v[i]);
        proof {
            assert(out@ =~= v@.take(i + 1));
        }
        i += 1;
    }
    proof {
        assert(out@ =~= v@);
    }
    out
}

// ---------------------------------------------------------------------------
// Outside types and trusted wrappers
// ---------------------------------------------------------------------------
/// Declares the image crate's decoded-bitmap type, so that a decoded bitmap
/// can be handed through; the library never looks inside it.
#[verifier::external_type_specification]
#[verifier::external_body]
pub struct ExDynamicImage(image::DynamicImage);

/// Declares the tempfile crate's owned temporary path type. The file is
/// removed when the value is dropped, which ties the materialized file's
/// lifetime to the `Image` that owns it.
#[verifier::external_type_specification]
#[verifier::external_body]
pub struct ExTempPath(tempfile::TempPath);

/// Relies on tempfile's `Builder::tempfile`: the created file's name is the
/// prefix, then random characters, then the suffix, so on success the path
/// ends with ".png"; the path string is read back from the owned path.
#[verifier::external_body]
fn create_temp_png() -> (r: Result<(tempfile::TempPath, String), String>)
    ensures
        r matches Ok(p) ==> p.1@.len() >= 4 && ".png"@.is_suffix_of(p.1@),
{
    match tempfile::Builder::new().prefix("rusty-tesseract").suffix(".png").tempfile() {
        Ok(file) => {
            let temp_path = file.into_temp_path();
            let path = match temp_path.to_str() {
                Some(p) => p.to_string(),
                None => return Err(String::from("temporary file path is not valid UTF-8")),
            };
            Ok((temp_path, path))
        },
        Err(e) => Err(e.to_string()),
    }
}

/// Relies on `DynamicImage::save_with_format`: encodes the bitmap as PNG into
/// the file at `path`; what ends up on disk cannot be stated here, so nothing
/// more is claimed of the outcome.
#[verifier::external_body]
fn save_png(img: &image::DynamicImage, path: &str) -> (r: Result<(), String>) {
    img.save_with_format(std::path::Path::new(path), image::ImageFormat::Png).map_err(|e| {
        e.to_string()
    })
}

/// Relies on `RgbImage::from_raw`, which accepts a buffer exactly when
/// `3 * width * height`, computed step by step without overflowing the
/// platform's word, is at most the buffer's length; the accepted buffer is
/// wrapped as a dynamic bitmap.
#[verifier::external_body]
fn rgb_bitmap_from_raw(width: u32, height: u32, data: Vec<u8>) -> (r: Option<image::DynamicImage>)
    ensures
        r is Some <==> (3 * (width as int) <= usize::MAX && 3 * (width as int) * (height as int)
            <= usize::MAX && 3 * (width as int) * (height as int) <= data@.len()),
{
    image::RgbImage::from_raw(width, height, data).map(image::DynamicImage::ImageRgb8)
}

// ---------------------------------------------------------------------------
// Image
// ---------------------------------------------------------------------------
enum InputData {
    /// A caller-supplied path whose extension was validated on construction.
    Path { path: String },
    /// A materialized bitmap in a temporary file owned by this value.
    Temp { file: tempfile::TempPath, path: String },
    /// A path and raw pixel data, resolved when a command is built.
    Raw { path: String, pixels: RawPixels },
}

/// One image input for the engine: a validated file path, a bitmap
/// materialized into an owned temporary file, or a raw pixel array paired
/// with an optional path.
pub struct Image {
    data: InputData,
}

impl Image {
    /// The image is backed by a validated caller-supplied path.
    pub closed spec fn is_path_backed(&self) -> bool {
        self.data is Path
    }

    /// The image is backed by a materialized temporary file.
    pub closed spec fn is_temp_backed(&self) -> bool {
        self.data is Temp
    }

    /// The image is backed by a raw array and an optional path.
    pub closed spec fn is_raw_backed(&self) -> bool {
        self.data is Raw
    }

    /// The stored path: the validated path, the temporary file's path, or the
    /// raw variant's optional path (empty when absent).
    pub closed spec fn stored_path(&self) -> Seq<char> {
        match self.data {
            InputData::Path { path } => path@,
            InputData::Temp { path, .. } => path@,
            InputData::Raw { path, .. } => path@,
        }
    }

    /// The raw variant's pixel array.
    pub closed spec fn raw_pixels(&self) -> RawPixels
        recommends
            self.is_raw_backed(),
    {
        match self.data {
            InputData::Raw { pixels, .. } => pixels,
            InputData::Path { .. } => arbitrary(),
            InputData::Temp { .. } => arbitrary(),
        }
    }

    /// Every constructed image has a usable source: a path-backed image has
    /// an allowed extension, a temp-backed one has a file, and a raw-backed
    /// one has a path or at least one pixel byte.
    pub closed spec fn wf(&self) -> bool {
        match self.data {
            InputData::Path { path } => ext_allowed(path@),
            InputData::Temp { path, .. } => path@.len() > 0,
            InputData::Raw { path, pixels } => path@.len() > 0 || pixels.data@.len() > 0,
        }
    }

    /// The image still needs its pixel data encoded to a file before the
    /// engine can read it.
    pub closed spec fn needs_encoding(&self) -> bool {
        match self.data {
            InputData::Raw { path, pixels } => path@.len() == 0 && pixels.data@.len() > 0,
            InputData::Path { .. } => false,
            InputData::Temp { .. } => false,
        }
    }

    /// The raw pixel data cannot form the RGB image its dimensions claim:
    /// a dimension does not fit the encoder's word, or the byte count is not
    /// exactly `width * height * 3`. Such data is rejected before any file is
    /// touched.
    pub open spec fn raw_data_malformed(&self) -> bool {
        ||| self.raw_pixels().width as int > u32::MAX as int
        ||| self.raw_pixels().height as int > u32::MAX as int
        ||| self.raw_pixels().data@.len() != 3 * (self.raw_pixels().width as int) * (
        self.raw_pixels().height as int)
    }

    /// Builds an image from a file path; succeeds exactly when the path's
    /// extension is in the allow-list.
    pub fn from_path(path: String) -> (r: TessResult<Image>)
        ensures
            r is Ok <==> ext_allowed(path@),
            r matches Ok(img) ==> img.is_path_backed() && img.stored_path() == path@ && img.wf()
                && !img.needs_encoding(),
            r matches Err(e) ==> e is ImageFormatError,
    {
        match check_image_format(path.as_str()) {
            Ok(()) => Ok(Image { data: InputData::Path { path } }),
            Err(e) => Err(e),
        }
    }

    /// Materializes a decoded bitmap into an owned temporary PNG file;
    /// failure to create the file or to encode the bitmap is reported as
    /// `TempfileError` or `DynamicImageError`.
    pub fn from_dynamic_image(img: &image::DynamicImage) -> (r: TessResult<Image>)
        ensures
            r matches Ok(i) ==> i.is_temp_backed() && i.stored_path().len() > 0 && i.wf()
                && !i.needs_encoding() && ".png"@.is_suffix_of(i.stored_path()),
            r matches Err(e) ==> e is TempfileError || e is DynamicImageError,
    {
        let (file, path) = match create_temp_png() {
            Ok(t) => t,
            Err(m) => {
                return Err(TessError::TempfileError(m));
            },
        };
        match save_png(img, path.as_str()) {
            Ok(()) => Ok(Image { data: InputData::Temp { file, path } }),
            Err(m) => Err(TessError::DynamicImageError(m)),
        }
    }

    /// Builds an image from a path and a raw pixel array; rejected with
    /// `ImageNotFoundError` exactly when the path is empty and the array
    /// holds no data. Which source is used is decided when a command is
    /// built.
    pub fn new(path: String, pixels: RawPixels) -> (r: TessResult<Image>)
        ensures
            r is Ok <==> path@.len() > 0 || pixels.data@.len() > 0,
            r matches Ok(img) ==> img.is_raw_backed() && img.stored_path() == path@
                && img.raw_pixels() == pixels && img.wf(),
            r matches Ok(img) ==> (img.needs_encoding() <==> (path@.len() == 0
                && pixels.data@.len() > 0)),
            r matches Err(e) ==> e is ImageNotFoundError,
    {
        if path.as_str().unicode_len() == 0 && pixels.data.len() == 0 {
            Err(TessError::ImageNotFoundError)
        } else {
            Ok(Image { data: InputData::Raw { path, pixels } })
        }
    }

    /// The path the engine will read, when one is already available: the
    /// validated path, the temporary file, or the raw variant's path after a
    /// format check. A raw image whose data has not been encoded yet has no
    /// usable path and reports `ImageNotFoundError`.
    pub fn get_image_path(&self) -> (r: TessResult<String>)
        ensures
            self.is_path_backed() || self.is_temp_backed() ==> (r matches Ok(p) && p@
                == self.stored_path()),
            self.is_raw_backed() && self.stored_path().len() > 0 ==> {
                &&& ext_allowed(self.stored_path()) <==> r is Ok
                &&& r matches Ok(p) ==> p@ == self.stored_path()
                &&& r matches Err(e) ==> e is ImageFormatError
            },
            self.is_raw_backed() && self.stored_path().len() == 0 ==> (r matches Err(e) && e
                is ImageNotFoundError),
    {
        match &self.data {
            InputData::Path { path } => Ok(path.clone()),
            InputData::Temp { path, .. } => Ok(path.clone()),
            InputData::Raw { path, .. } => {
                if path.as_str().unicode_len() == 0 {
                    Err(TessError::ImageNotFoundError)
                } else {
                    match check_image_format(path.as_str()) {
                        Ok(()) => Ok(path.clone()),
                        Err(e) => Err(e),
                    }
                }
            },
        }
    }

    /// Encodes a raw image's pixel data into an owned temporary PNG file, so
    /// that the engine can read it; an image that already has a usable source
    /// is left untouched. The data must hold exactly `width * height * 3`
    /// bytes (one RGB pixel each); anything else is an encoding error.
    pub fn materialize(&mut self) -> (r: TessResult<()>)
        ensures
            !old(self).needs_encoding() ==> (r matches Ok(p) && *final(self) == *old(self)),
            old(self).needs_encoding() ==> match r {
                Ok(_) => final(self).is_temp_backed() && final(self).stored_path().len() > 0
                    && final(self).wf() && ".png"@.is_suffix_of(final(self).stored_path()),
                Err(e) => *final(self) == *old(self) && (e is TempfileError
                    || e is DynamicImageError),
            },
            old(self).needs_encoding() && old(self).raw_data_malformed() ==> (r matches Err(e)
                && e is DynamicImageError),
    {
        let needs = match &self.data {
            InputData::Raw { path, pixels } => path.as_str().unicode_len() == 0
                && pixels.data.len() > 0,
            _ => false,
        };
        if !needs {
            return Ok(());
        }
        let (width, height, data) = match &self.data {
            InputData::Raw { pixels, .. } => {
                if pixels.width > u32::MAX as usize || pixels.height > u32::MAX as usize {
                    return Err(
                        TessError::DynamicImageError(
                            String::from_str("pixel array dimensions are too large"),
                        ),
                    );
                }
                let w128: u128 = pixels.width as u128;
                let h128: u128 = pixels.height as u128;
                proof {
                    assert(w128 * h128 <= 0xFFFF_FFFF_FFFF_FFFFu128) by (nonlinear_arith)
                        requires
                            w128 <= 0xFFFF_FFFFu128,
                            h128 <= 0xFFFF_FFFFu128,
                    ;
                }
                let expected: u128 = 3u128 * (w128 * h128);
                if expected != pixels.data.len() as u128 {
                    return Err(
                        TessError::DynamicImageError(
                            String::from_str("pixel array length is not width * height * 3"),
                        ),
                    );
                }
                proof {
                    assert(*pixels == self.raw_pixels());
                    let wi = pixels.width as int;
                    let hi = pixels.height as int;
                    assert(3 * (wi * hi) == 3 * wi * hi) by (nonlinear_arith);
                    assert(!self.raw_data_malformed());
                }
                (pixels.width as u32, pixels.height as u32, copy_bytes(&pixels.data))
            },
            _ => {
                return Err(TessError::DynamicImageError(String::from_str("no pixel data")));
            },
        };
        let bitmap = match rgb_bitmap_from_raw(width, height, data) {
            Some(b) => b,
            None => {
                return Err(
                    TessError::DynamicImageError(
                        String::from_str("pixel array does not form an image"),
                    ),
                );
            },
        };
        let (file, path) = match create_temp_png() {
            Ok(t) => t,
            Err(m) => {
                return Err(TessError::TempfileError(m));
            },
        };
        match save_png(&bitmap, path.as_str()) {
            Ok(()) => {
                self.data = InputData::Temp { file, path };
                Ok(())
            },
            Err(m) => Err(TessError::DynamicImageError(m)),
        }
    }
}

impl Image {
    /// Resolves this image to the path the engine will read, materializing
    /// raw pixel data into an owned temporary file first when necessary.
    /// Success is owed whenever a validated path or a materialized file is
    /// already present; for a raw image it depends on its path's format or on
    /// the encoding of its data.
    pub fn resolve_image_path(&mut self) -> (r: TessResult<String>)
        ensures
            !old(self).needs_encoding() ==> *final(self) == *old(self),
            old(self).is_path_backed() || old(self).is_temp_backed() ==> r is Ok,
            old(self).is_raw_backed() && old(self).stored_path().len() > 0 ==> (r is Ok
                <==> ext_allowed(old(self).stored_path())),
            r matches Ok(p) ==> p@ == final(self).stored_path(),
            r matches Err(e) ==> (e is TempfileError || e is DynamicImageError
                || e is ImageFormatError || e is ImageNotFoundError),
            old(self).needs_encoding() && r is Ok ==> final(self).is_temp_backed()
                && ".png"@.is_suffix_of(final(self).stored_path()),
            // each failure kind comes from exactly one case, so the
            // resolution error reaches the caller untouched
            old(self).is_raw_backed() && old(self).stored_path().len() > 0 && !ext_allowed(
                old(self).stored_path(),
            ) ==> (r matches Err(e) && e is ImageFormatError),
            old(self).is_raw_backed() && old(self).stored_path().len() == 0 && old(
                self,
            ).raw_pixels().data@.len() == 0 ==> (r matches Err(e) && e is ImageNotFoundError),
            old(self).needs_encoding() && old(self).raw_data_malformed() ==> (r matches Err(e)
                && e is DynamicImageError),
            old(self).needs_encoding() ==> (r matches Err(e) ==> (e is TempfileError
                || e is DynamicImageError)),
            (r matches Err(e) && e is ImageNotFoundError) ==> old(self).is_raw_backed() && old(
                self,
            ).stored_path().len() == 0 && old(self).raw_pixels().data@.len() == 0,
            (r matches Err(e) && e is ImageFormatError) ==> old(self).is_raw_backed() && old(
                self,
            ).stored_path().len() > 0 && !ext_allowed(old(self).stored_path()),
    {
        match self.materialize() {
            Ok(_) => {},
            Err(e) => {
                return Err(e);
            },
        }
        self.get_image_path()
    }
}

} // verus!
