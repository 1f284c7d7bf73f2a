use vstd::prelude::*;

verus! {

/// The closed set of failures that any operation of this crate can surface.
/// Every failure is returned as a value of this type; nothing panics and
/// nothing is silently defaulted to an empty success.
#[derive(Debug, Clone)]
pub enum TessError {
    /// Spawning the engine failed: the binary is missing or not executable.
    TesseractNotFoundError,
    /// The engine ran but exited with a non-zero status; carries the captured
    /// standard-error text verbatim.
    VersionError(String),
    /// A file path's extension is not in the allow-list of image formats.
    ImageFormatError,
    /// Neither a usable path nor non-empty pixel data was supplied.
    ImageNotFoundError,
    /// A box or data line failed structural or numeric parsing.
    ParseError,
    /// A temporary file for a materialized bitmap could not be created.
    TempfileError(String),
    /// An in-memory bitmap could not be encoded to a file the engine can read.
    DynamicImageError(String),
    /// A named-file output mode exited successfully but the expected output
    /// file does not exist.
    OutputFileMissing,
}

pub type TessResult<T> = Result<T, TessError>;

/// The fixed description of each failure kind.
pub open spec fn spec_error_message(e: TessError) -> Seq<char> {
    match e {
        TessError::TesseractNotFoundError => "Tesseract not found. Please check installation path!"@,
        TessError::VersionError(_) => "Invalid tesseract version!"@,
        TessError::ImageFormatError => "Image format not within the list of allowed image formats: ['JPEG','JPG','PNG','PBM','PGM','PPM','TIFF','BMP','GIF','WEBP']"@,
        TessError::ImageNotFoundError => "Please assign a valid image path."@,
        TessError::ParseError => "Data could not be parsed."@,
        TessError::TempfileError(_) => "Could not create tempfile."@,
        TessError::DynamicImageError(_) => "Could not save dynamic image to tempfile."@,
        TessError::OutputFileMissing => "The expected output file was not written."@,
    }
}

impl TessError {
    /// A short, fixed description of the failure kind; diagnostic detail, when
    /// present, is the variant's own payload.
    pub fn message(&self) -> (r: &'static str)
        ensures
            r@ == spec_error_message(*self),
    {
        match self {
            TessError::TesseractNotFoundError => "Tesseract not found. Please check installation path!",
            TessError::VersionError(_) => "Invalid tesseract version!",
            TessError::ImageFormatError => "Image format not within the list of allowed image formats: ['JPEG','JPG','PNG','PBM','PGM','PPM','TIFF','BMP','GIF','WEBP']",
            TessError::ImageNotFoundError => "Please assign a valid image path.",
            TessError::ParseError => "Data could not be parsed.",
            TessError::TempfileError(_) => "Could not create tempfile.",
            TessError::DynamicImageError(_) => "Could not save dynamic image to tempfile.",
            TessError::OutputFileMissing => "The expected output file was not written.",
        }
    }
}

/// Standalone marker for a failed engine run; the operations themselves
/// return the richer `TessError::VersionError`, which carries the engine's
/// diagnostic text.
#[derive(Debug, Clone)]
pub struct VersionError;

/// Standalone marker for a missing engine binary; the operations themselves
/// return `TessError::TesseractNotFoundError`.
#[derive(Debug, Clone)]
pub struct TesseractNotFoundError;

/// Standalone marker for a rejected file extension; the operations themselves
/// return `TessError::ImageFormatError`.
#[derive(Debug, Clone)]
pub struct ImageFormatError;

/// Standalone marker for an image with no usable source; the operations
/// themselves return `TessError::ImageNotFoundError`.
#[derive(Debug, Clone)]
pub struct ImageNotFoundError;

impl VersionError {
    pub fn message(&self) -> (r: &'static str)
        ensures
            r@ == "Invalid tesseract version!"@,
    {
        "Invalid tesseract version!"
    }
}

impl TesseractNotFoundError {
    pub fn message(&self) -> (r: &'static str)
        ensures
            r@ == "Tesseract not found. Please check installation path!"@,
    {
        "Tesseract not found. Please check installation path!"
    }
}

impl ImageFormatError {
    pub fn message(&self) -> (r: &'static str)
        ensures
            r@ == "Image format not within the list of allowed image formats: ['JPEG','JPG','PNG','PBM','PGM','PPM','TIFF','BMP','GIF','WEBP']"@,
    {
        "Image format not within the list of allowed image formats: ['JPEG','JPG','PNG','PBM','PGM','PPM','TIFF','BMP','GIF','WEBP']"
    }
}

impl ImageNotFoundError {
    pub fn message(&self) -> (r: &'static str)
        ensures
            r@ == "Please assign a valid image path."@,
    {
        "Please assign a valid image path."
    }
}

} // verus!
