pub mod args;
pub mod command;
pub mod error;
pub mod input;
pub mod numeric;
pub mod output_boxes;
pub mod output_data;
pub mod text;

pub use args::Args;
pub use command::create_tesseract_command;
pub use command::file_mode_result;
pub use command::output_file_name;
pub use command::version_command;
pub use command::get_tesseract_command_name;
pub use command::get_tesseract_version;
pub use command::image_to_string;
pub use command::interpret_process_outcome;
pub use command::OutputDestination;
pub use command::OutputFormat;
pub use command::ProcessOutcome;
pub use command::TessCommand;
pub use error::ImageFormatError;
pub use error::ImageNotFoundError;
pub use error::TessError;
pub use error::TessResult;
pub use error::TesseractNotFoundError;
pub use error::VersionError;
pub use input::check_image_format;
pub use input::Image;
pub use input::RawPixels;
pub use output_boxes::image_to_boxes;
pub use output_boxes::string_to_boxes;
pub use output_boxes::BoxOutput;
pub use output_boxes::BoxRecord;
pub use output_data::image_to_data;
pub use output_data::string_to_data;
pub use output_data::Data;
pub use output_data::DataOutput;
