use rusty_tesseract::string_to_boxes;
use rusty_tesseract::string_to_data;
use rusty_tesseract::BoxRecord;
use rusty_tesseract::Data;
use rusty_tesseract::TessError;

#[test]
fn test_string_to_data() {
    let result = string_to_data("level   page_num        block_num       par_num line_num        word_num        left    top     width   height  conf    text
        5       1       1       1       1       1       65      41      46      20      96.063751       The");
    assert_eq!(
        *result.unwrap().first().unwrap(),
        Data {
            level: 5,
            page_num: 1,
            block_num: 1,
            par_num: 1,
            line_num: 1,
            word_num: 1,
            left: 65,
            top: 41,
            width: 46,
            height: 20,
            conf: String::from("96.063751"),
            text: String::from("The"),
        }
    )
}

#[test]
fn box_parser_reads_two_records() {
    let boxes = string_to_boxes("L 18 26 36 59 0\nO 35 25 70 60 0\n").unwrap();
    assert_eq!(boxes.len(), 2);
    assert_eq!(
        boxes[0],
        BoxRecord {
            symbol: String::from("L"),
            left: 18,
            bottom: 26,
            right: 36,
            top: 59,
            page: 0,
        }
    );
    assert_eq!(boxes[1].symbol, "O");
    assert_eq!(boxes[1].left, 35);
}

#[test]
fn box_parser_preserves_duplicates() {
    let boxes = string_to_boxes("O 1 2 3 4 0\nO 5 6 7 8 0\n").unwrap();
    assert_eq!(boxes.len(), 2);
    assert_eq!(boxes[0].symbol, "O");
    assert_eq!(boxes[1].symbol, "O");
    assert_eq!(boxes[0].left, 1);
    assert_eq!(boxes[1].left, 5);
}

#[test]
fn box_parser_skips_lines_without_a_separator() {
    let boxes = string_to_boxes("noise\nL 18 26 36 59 0\n").unwrap();
    assert_eq!(boxes.len(), 1);
    assert_eq!(boxes[0].symbol, "L");
}

#[test]
fn box_parser_fails_on_a_bad_numeric_field() {
    let r = string_to_boxes("L 18 26 xx 59 0\n");
    assert!(matches!(r, Err(TessError::ParseError)));
}

#[test]
fn box_parser_fails_on_a_wrong_field_count() {
    assert!(matches!(
        string_to_boxes("L 18 26 36 59\n"),
        Err(TessError::ParseError)
    ));
    assert!(matches!(
        string_to_boxes("L 18 26 36 59 0 7\n"),
        Err(TessError::ParseError)
    ));
}

#[test]
fn box_line_parse_handles_negative_coordinates() {
    let b = BoxRecord::parse("~ -1 -2 +3 4 0").unwrap();
    assert_eq!(b.symbol, "~");
    assert_eq!(b.left, -1);
    assert_eq!(b.bottom, -2);
    assert_eq!(b.right, 3);
    assert_eq!(b.page, 0);
}

#[test]
fn data_parser_skips_exactly_the_first_line_whatever_it_holds() {
    let with_strange_header =
        string_to_data("### not a header at all ###\n5 1 1 1 1 1 65 41 46 20 96.0 The").unwrap();
    assert_eq!(with_strange_header.len(), 1);
    assert_eq!(with_strange_header[0].text, "The");

    // even a well-formed first row is skipped
    let rows = string_to_data("5 1 1 1 1 1 65 41 46 20 96.0 The").unwrap();
    assert_eq!(rows.len(), 0);
}

#[test]
fn data_parser_fails_on_a_non_numeric_left_field() {
    let r = string_to_data("header\n5 1 1 1 1 1 abc 41 46 20 96.0 The");
    assert!(matches!(r, Err(TessError::ParseError)));
}

#[test]
fn data_parser_accepts_a_structural_row_without_text() {
    let rows = string_to_data("header\n1 1 0 0 0 0 0 0 696 89 -1").unwrap();
    assert_eq!(rows.len(), 1);
    assert_eq!(rows[0].text, "");
    assert_eq!(rows[0].conf, "-1");
    assert_eq!(rows[0].level, 1);
    assert_eq!(rows[0].width, 696);
}

#[test]
fn data_parser_fails_on_missing_or_extra_fields() {
    assert!(matches!(
        string_to_data("header\n5 1 1 1 1 1 65 41 46 20"),
        Err(TessError::ParseError)
    ));
    assert!(matches!(
        string_to_data("header\n5 1 1 1 1 1 65 41 46 20 96.0 The extra"),
        Err(TessError::ParseError)
    ));
}

#[test]
fn data_parser_fails_when_a_row_overflows_an_i32() {
    let r = string_to_data("header\n5 1 1 1 1 1 2147483648 41 46 20 96.0 The");
    assert!(matches!(r, Err(TessError::ParseError)));

    let ok = string_to_data("header\n5 1 1 1 1 1 -2147483648 41 46 20 96.0 The").unwrap();
    assert_eq!(ok[0].left, -2147483648);
}

#[test]
fn data_parser_accepts_empty_output() {
    assert_eq!(string_to_data("").unwrap().len(), 0);
}

#[test]
fn data_line_accepts_the_float_forms_the_standard_parser_accepts() {
    for conf in ["-1", "96.063751", "1e3", "-2.5E-2", "3.", ".5", "inf", "NaN"] {
        let line = format!("5 1 1 1 1 1 65 41 46 20 {} word", conf);
        let d = Data::parse(&line);
        assert!(d.is_some(), "rejected conf {}", conf);
        assert_eq!(d.unwrap().conf, conf);
        assert!(conf.parse::<f32>().is_ok(), "std rejects {}", conf);
    }
    for conf in ["abc", "1.2.3", "e5", ".", "1e", "--1", ""] {
        let line = format!("5 1 1 1 1 1 65 41 46 20 {} word", conf);
        assert!(Data::parse(&line).is_none(), "accepted conf {}", conf);
        assert!(conf.parse::<f32>().is_err(), "std accepts {}", conf);
    }
}

#[test]
fn parsers_handle_windows_line_endings() {
    let boxes = string_to_boxes("L 1 2 3 4 0\r\nO 5 6 7 8 0\r\n").unwrap();
    assert_eq!(boxes.len(), 2);
    assert_eq!(boxes[1].page, 0);

    let rows = string_to_data("header\r\n5 1 1 1 1 1 65 41 46 20 96.0 The\r\n").unwrap();
    assert_eq!(rows.len(), 1);
    assert_eq!(rows[0].text, "The");
}

#[test]
fn a_record_renders_as_one_space_separated_line() {
    let d = Data {
        level: 5,
        page_num: 1,
        block_num: 1,
        par_num: 1,
        line_num: 1,
        word_num: 1,
        left: 65,
        top: 41,
        width: 46,
        height: 20,
        conf: String::from("96.063751"),
        text: String::from("The"),
    };
    assert_eq!(d.to_line(), "5 1 1 1 1 1 65 41 46 20 96.063751 The");

    let structural = Data { text: String::new(), conf: String::from("-1"), ..d };
    assert_eq!(structural.to_line(), "5 1 1 1 1 1 65 41 46 20 -1 ");
}

#[test]
fn a_negative_coordinate_renders_with_its_sign() {
    let d = Data {
        level: -5,
        page_num: 0,
        block_num: 2147483647,
        par_num: -2147483648,
        line_num: 1,
        word_num: 1,
        left: 65,
        top: 41,
        width: 46,
        height: 20,
        conf: String::from("-1"),
        text: String::from("x"),
    };
    assert_eq!(d.to_line(), "-5 0 2147483647 -2147483648 1 1 65 41 46 20 -1 x");
}

#[test]
fn any_unicode_whitespace_separates_fields() {
    let line = "5\u{000B}1\t1 1 1 1\u{00A0}65 41 46 20\u{2003}96.0\u{3000}The";
    let d = Data::parse(line).unwrap();
    assert_eq!(d.level, 5);
    assert_eq!(d.left, 65);
    assert_eq!(d.conf, "96.0");
    assert_eq!(d.text, "The");
    // the same split std's whitespace splitter makes
    assert_eq!(line.split_whitespace().count(), 12);

    let boxes = string_to_boxes("L\u{000C}18 26 36 59 0\n").unwrap();
    assert_eq!(boxes[0].symbol, "L");
    assert_eq!(boxes[0].left, 18);
}
