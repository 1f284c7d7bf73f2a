use rusty_tesseract::check_image_format;
use rusty_tesseract::Image;
use rusty_tesseract::RawPixels;
use rusty_tesseract::TessError;

fn raw(height: usize, width: usize, channels: usize, data: Vec<u8>) -> RawPixels {
    RawPixels { height, width, channels, data }
}

#[test]
fn test_from_path() {
    let input = Image::from_path(String::from("img/string.png")).unwrap();

    assert_eq!(input.get_image_path().unwrap(), "img/string.png")
}

#[test]
fn test_from_dynamic_image() {
    let buf = image::RgbImage::from_fn(5, 4, |x, y| {
        image::Rgb([(x * 40) as u8, (y * 50) as u8, (x + y) as u8])
    });
    let img = image::DynamicImage::ImageRgb8(buf);

    let input = Image::from_dynamic_image(&img).unwrap();

    let temppath = input.get_image_path().unwrap();

    let tempimg = image::io::Reader::open(&temppath).unwrap().decode().unwrap();

    assert_eq!(img, tempimg);
}

#[test]
fn accepts_every_allowed_extension_in_both_cases() {
    let formats = [
        "jpeg", "jpg", "png", "pbm", "pgm", "ppm", "tiff", "bmp", "gif", "webp",
    ];
    for f in formats {
        let lower = format!("picture.{}", f);
        let upper = format!("picture.{}", f.to_uppercase());
        assert!(check_image_format(&lower).is_ok(), "rejected {}", lower);
        assert!(check_image_format(&upper).is_ok(), "rejected {}", upper);
        assert!(Image::from_path(lower.clone()).is_ok(), "rejected {}", lower);
        assert!(Image::from_path(upper.clone()).is_ok(), "rejected {}", upper);
    }
}

#[test]
fn rejects_every_other_extension() {
    for p in ["picture.txt", "picture", "picture.", "picture.pngg", "", "dir.png/file"] {
        assert!(
            matches!(check_image_format(p), Err(TessError::ImageFormatError)),
            "accepted {}",
            p
        );
        assert!(matches!(
            Image::from_path(String::from(p)),
            Err(TessError::ImageFormatError)
        ));
    }
}

#[test]
fn new_rejects_only_when_both_sources_are_empty() {
    let both_empty = Image::new(String::new(), raw(0, 0, 3, Vec::new()));
    assert!(matches!(both_empty, Err(TessError::ImageNotFoundError)));

    let path_only = Image::new(String::from("img/string.png"), raw(0, 0, 3, Vec::new()));
    assert!(path_only.is_ok());

    let pixels_only = Image::new(String::new(), raw(1, 1, 3, vec![1, 2, 3]));
    assert!(pixels_only.is_ok());
}

#[test]
fn raw_image_with_path_resolves_to_the_path() {
    let img = Image::new(String::from("img/string.png"), raw(0, 0, 3, Vec::new())).unwrap();
    assert_eq!(img.get_image_path().unwrap(), "img/string.png");

    let bad = Image::new(String::from("img/string.xyz"), raw(0, 0, 3, Vec::new())).unwrap();
    assert!(matches!(bad.get_image_path(), Err(TessError::ImageFormatError)));
}

#[test]
fn materialize_writes_the_pixels_to_a_png() {
    let data: Vec<u8> = (0u8..24u8).collect();
    let mut img = Image::new(String::new(), raw(2, 4, 3, data.clone())).unwrap();

    assert!(matches!(img.get_image_path(), Err(TessError::ImageNotFoundError)));

    img.materialize().unwrap();
    let path = img.get_image_path().unwrap();
    assert!(path.ends_with(".png"));

    let reread = image::io::Reader::open(&path).unwrap().decode().unwrap().to_rgb8();
    assert_eq!(reread.dimensions(), (4, 2));
    assert_eq!(reread.into_raw(), data);
}

#[test]
fn materialize_rejects_a_malformed_array() {
    // 5 bytes cannot be 1x2 RGB pixels
    let mut img = Image::new(String::new(), raw(1, 2, 3, vec![1, 2, 3, 4, 5])).unwrap();
    assert!(matches!(
        img.materialize(),
        Err(TessError::DynamicImageError(_))
    ));
}

#[test]
fn raw_pixels_report_emptiness_and_dimensions() {
    let p = raw(2, 3, 3, vec![0; 18]);
    assert!(!p.is_empty());
    assert_eq!(p.dim(), (2, 3, 3));
    assert!(raw(4, 4, 3, Vec::new()).is_empty());
}

#[test]
fn materialize_rejects_oversized_dimensions() {
    let too_wide: usize = (u32::MAX as usize) + 1;
    let mut img = Image::new(String::new(), raw(1, too_wide, 3, vec![1, 2, 3])).unwrap();
    assert!(matches!(
        img.materialize(),
        Err(TessError::DynamicImageError(_))
    ));
}
