use rusty_tesseract::create_tesseract_command;
use rusty_tesseract::get_tesseract_command_name;
use rusty_tesseract::get_tesseract_version;
use rusty_tesseract::image_to_boxes;
use rusty_tesseract::image_to_data;
use rusty_tesseract::image_to_string;
use rusty_tesseract::interpret_process_outcome;
use rusty_tesseract::Args;
use rusty_tesseract::Image;
use rusty_tesseract::OutputDestination;
use rusty_tesseract::OutputFormat;
use rusty_tesseract::ProcessOutcome;
use rusty_tesseract::TessError;

fn completed(code: i32, stdout: &str, stderr: &str) -> ProcessOutcome {
    ProcessOutcome::Completed {
        exit_code: Some(code),
        stdout: String::from(stdout),
        stderr: String::from(stderr),
    }
}

#[test]
fn selects_the_platform_binary_name() {
    assert_eq!(get_tesseract_command_name(true), "tesseract.exe");
    assert_eq!(get_tesseract_command_name(false), "tesseract");
}

#[test]
fn builds_the_argument_vector_in_the_fixed_order() {
    let mut img = Image::from_path(String::from("img/string.png")).unwrap();
    let args = Args::new();
    let cmd = create_tesseract_command(
        &mut img,
        &args,
        &OutputDestination::Stdout,
        OutputFormat::Tsv,
        false,
    )
    .unwrap();
    assert_eq!(cmd.program, "tesseract");
    let expected = vec![
        "img/string.png",
        "stdout",
        "-l",
        "eng",
        "--dpi",
        "150",
        "--psm",
        "3",
        "--oem",
        "3",
        "tsv",
    ];
    assert_eq!(cmd.args, expected);
}

#[test]
fn appends_the_box_mode_token_and_the_file_destination() {
    let mut img = Image::from_path(String::from("in.tiff")).unwrap();
    let mut args = Args::new();
    args.lang = String::from("deu");
    args.dpi = 300;
    args.psm = 6;
    args.oem = 1;
    let cmd = create_tesseract_command(
        &mut img,
        &args,
        &OutputDestination::File(String::from("out")),
        OutputFormat::Boxes,
        true,
    )
    .unwrap();
    assert_eq!(cmd.program, "tesseract.exe");
    let expected = vec![
        "in.tiff", "out", "-l", "deu", "--dpi", "300", "--psm", "6", "--oem", "1", "makebox",
    ];
    assert_eq!(cmd.args, expected);
}

#[test]
fn building_twice_from_equal_values_is_deterministic() {
    let mut args = Args::new();
    args.set_config_variable(
        String::from("tessedit_char_whitelist"),
        String::from("abcXYZ"),
    );
    args.set_config_variable(String::from("classify_bln_numeric_mode"), String::from("1"));

    let mut img1 = Image::from_path(String::from("img/string.png")).unwrap();
    let mut img2 = Image::from_path(String::from("img/string.png")).unwrap();
    let c1 = create_tesseract_command(
        &mut img1,
        &args,
        &OutputDestination::Stdout,
        OutputFormat::Text,
        false,
    )
    .unwrap();
    let c2 = create_tesseract_command(
        &mut img2,
        &args,
        &OutputDestination::Stdout,
        OutputFormat::Text,
        false,
    )
    .unwrap();
    assert_eq!(c1.program, c2.program);
    assert_eq!(c1.args, c2.args);
}

#[test]
fn config_variables_are_emitted_sorted_whatever_the_insertion_order() {
    let mut first = Args::new();
    first.set_config_variable(String::from("bb"), String::from("2"));
    first.set_config_variable(String::from("aa"), String::from("1"));

    let mut second = Args::new();
    second.set_config_variable(String::from("aa"), String::from("1"));
    second.set_config_variable(String::from("bb"), String::from("2"));

    let mut img1 = Image::from_path(String::from("x.png")).unwrap();
    let mut img2 = Image::from_path(String::from("x.png")).unwrap();
    let c1 = create_tesseract_command(
        &mut img1,
        &first,
        &OutputDestination::Stdout,
        OutputFormat::Text,
        false,
    )
    .unwrap();
    let c2 = create_tesseract_command(
        &mut img2,
        &second,
        &OutputDestination::Stdout,
        OutputFormat::Text,
        false,
    )
    .unwrap();
    assert_eq!(c1.args, c2.args);
    let expected = vec![
        "x.png", "stdout", "-l", "eng", "-c", "aa=1", "-c", "bb=2", "--dpi", "150", "--psm", "3",
        "--oem", "3",
    ];
    assert_eq!(c1.args, expected);
}

#[test]
fn setting_a_config_variable_again_replaces_its_value() {
    let mut args = Args::new();
    args.set_config_variable(String::from("aa"), String::from("1"));
    args.set_config_variable(String::from("aa"), String::from("9"));
    let pairs = args.config_variables();
    assert_eq!(pairs.len(), 1);
    assert_eq!(pairs[0].0, "aa");
    assert_eq!(pairs[0].1, "9");
}

#[test]
fn building_from_an_invalid_raw_path_propagates_the_format_error() {
    let mut img = Image::new(
        String::from("picture.xyz"),
        rusty_tesseract::RawPixels { height: 0, width: 0, channels: 3, data: Vec::new() },
    )
    .unwrap();
    let r = create_tesseract_command(
        &mut img,
        &Args::new(),
        &OutputDestination::Stdout,
        OutputFormat::Text,
        false,
    );
    assert!(matches!(r, Err(TessError::ImageFormatError)));
}

#[test]
fn interprets_the_process_outcome() {
    assert_eq!(
        interpret_process_outcome(completed(0, "recognized text", "noise")).unwrap(),
        "recognized text"
    );
    match interpret_process_outcome(completed(1, "", "engine exploded")) {
        Err(TessError::VersionError(diag)) => assert_eq!(diag, "engine exploded"),
        other => panic!("expected a version error, got {:?}", other),
    }
    match interpret_process_outcome(ProcessOutcome::Completed {
        exit_code: None,
        stdout: String::new(),
        stderr: String::from("killed"),
    }) {
        Err(TessError::VersionError(diag)) => assert_eq!(diag, "killed"),
        other => panic!("expected a version error, got {:?}", other),
    }
}

#[test]
fn version_query_on_a_missing_binary_reports_tool_not_found() {
    let r = get_tesseract_version(ProcessOutcome::SpawnFailed);
    assert!(matches!(r, Err(TessError::TesseractNotFoundError)));
    assert_eq!(
        r.unwrap_err().message(),
        "Tesseract not found. Please check installation path!"
    );
}

#[test]
fn version_query_returns_the_version_text() {
    let v = get_tesseract_version(completed(0, "tesseract 5.3.0\n", "")).unwrap();
    assert_eq!(v, "tesseract 5.3.0\n");
    assert!(matches!(
        get_tesseract_version(completed(2, "", "bad flag")),
        Err(TessError::VersionError(_))
    ));
}

#[test]
fn string_mode_returns_the_captured_output_verbatim() {
    let out = image_to_string(completed(0, "LOREM IPSUM DOLOR SIT AMET\n", "")).unwrap();
    assert_eq!(out, "LOREM IPSUM DOLOR SIT AMET\n");
    assert!(matches!(
        image_to_string(ProcessOutcome::SpawnFailed),
        Err(TessError::TesseractNotFoundError)
    ));
}

#[test]
fn box_mode_parses_the_captured_output() {
    let o = image_to_boxes(completed(0, "L 18 26 36 59 0\nO 35 25 70 60 0\n", "")).unwrap();
    assert_eq!(o.output, "L 18 26 36 59 0\nO 35 25 70 60 0\n");
    assert_eq!(o.boxes.len(), 2);
    assert_eq!(o.boxes[0].symbol, "L");
    assert!(matches!(
        image_to_boxes(completed(0, "L 1 2 zz 4 0\n", "")),
        Err(TessError::ParseError)
    ));
    assert!(matches!(
        image_to_boxes(completed(1, "", "boom")),
        Err(TessError::VersionError(_))
    ));
}

#[test]
fn data_mode_parses_the_captured_output() {
    let tsv = "level page_num block_num par_num line_num word_num left top width height conf text\n\
               1 1 0 0 0 0 0 0 696 89 -1\n\
               5 1 1 1 1 1 18 29 144 35 95.643112 LOREM\n";
    let o = image_to_data(completed(0, tsv, "")).unwrap();
    assert_eq!(o.output, tsv);
    assert_eq!(o.data.len(), 2);
    assert_eq!(o.data[0].text, "");
    assert_eq!(o.data[1].text, "LOREM");
    assert_eq!(o.data[1].conf, "95.643112");
    assert!(matches!(
        image_to_data(ProcessOutcome::SpawnFailed),
        Err(TessError::TesseractNotFoundError)
    ));
}

#[test]
fn a_cloned_args_value_builds_the_same_command() {
    let mut args = Args::new();
    args.set_config_variable(String::from("aa"), String::from("1"));
    let copy = args.clone();

    let mut img1 = Image::from_path(String::from("x.png")).unwrap();
    let mut img2 = Image::from_path(String::from("x.png")).unwrap();
    let c1 = create_tesseract_command(
        &mut img1,
        &args,
        &OutputDestination::Stdout,
        OutputFormat::Text,
        false,
    )
    .unwrap();
    let c2 = create_tesseract_command(
        &mut img2,
        &copy,
        &OutputDestination::Stdout,
        OutputFormat::Text,
        false,
    )
    .unwrap();
    assert_eq!(c1.args, c2.args);
}
