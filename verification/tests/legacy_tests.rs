use rusty_tesseract::file_mode_result;
use rusty_tesseract::output_file_name;
use rusty_tesseract::version_command;
use rusty_tesseract::ImageFormatError;
use rusty_tesseract::ImageNotFoundError;
use rusty_tesseract::ProcessOutcome;
use rusty_tesseract::TessError;
use rusty_tesseract::TesseractNotFoundError;
use rusty_tesseract::VersionError;

fn completed(code: i32, stdout: &str, stderr: &str) -> ProcessOutcome {
    ProcessOutcome::Completed {
        exit_code: Some(code),
        stdout: String::from(stdout),
        stderr: String::from(stderr),
    }
}

#[test]
fn version_command_holds_only_the_version_flag() {
    let c = version_command(false);
    assert_eq!(c.program, "tesseract");
    assert_eq!(c.args, vec!["--version"]);
    assert_eq!(version_command(true).program, "tesseract.exe");
}

#[test]
fn output_file_names_get_their_extension_only_when_missing() {
    assert_eq!(output_file_name("out", false), "out.txt");
    assert_eq!(output_file_name("out.txt", false), "out.txt");
    assert_eq!(output_file_name("out", true), "out.box");
    assert_eq!(output_file_name("out.box", true), "out.box");
    assert_eq!(output_file_name("box", false), "box.txt");
}

#[test]
fn file_mode_needs_a_zero_exit_and_the_written_file() {
    let ok = file_mode_result(completed(0, "", ""), Some(String::from("read back")));
    assert_eq!(ok.unwrap(), "read back");

    let missing = file_mode_result(completed(0, "", ""), None);
    assert!(matches!(missing, Err(TessError::OutputFileMissing)));

    let failed = file_mode_result(completed(1, "", "diagnostic"), Some(String::from("stale")));
    match failed {
        Err(TessError::VersionError(diag)) => assert_eq!(diag, "diagnostic"),
        other => panic!("expected a version error, got {:?}", other),
    }

    let no_spawn = file_mode_result(ProcessOutcome::SpawnFailed, None);
    assert!(matches!(no_spawn, Err(TessError::TesseractNotFoundError)));
}

#[test]
fn every_error_kind_describes_itself() {
    assert_eq!(
        TessError::ParseError.message(),
        "Data could not be parsed."
    );
    assert_eq!(
        TessError::ImageNotFoundError.message(),
        "Please assign a valid image path."
    );
    assert_eq!(
        TessError::VersionError(String::from("detail")).message(),
        "Invalid tesseract version!"
    );
    assert!(TessError::ImageFormatError.message().contains("WEBP"));
    assert!(TessError::TempfileError(String::new()).message().contains("tempfile"));
    assert!(TessError::DynamicImageError(String::new()).message().contains("dynamic image"));
    assert!(TessError::OutputFileMissing.message().contains("output file"));

    assert_eq!(VersionError.message(), "Invalid tesseract version!");
    assert_eq!(
        TesseractNotFoundError.message(),
        "Tesseract not found. Please check installation path!"
    );
    assert_eq!(
        ImageNotFoundError.message(),
        "Please assign a valid image path."
    );
    assert!(ImageFormatError.message().contains("JPEG"));
}
