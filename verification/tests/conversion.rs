//! The rasterizer, ramp and strategy selection, parameter checks, and the
//! HTML rendering, exercised on concrete values.

use rust_ascii::errors::AsciiError;
use rust_ascii::{
    ascii_to_html, image_to_ascii, select_filter, select_ramp, validate_hex_color,
    validate_image_args, Bitmap, HtmlConfig, Kernel, Strategy,
};

#[test]
fn test_select_filter() {
    assert!(matches!(
        select_filter("triangle"),
        Ok(Strategy::FilteredResize { kernel: Kernel::Triangle })
    ));
    assert!(matches!(select_filter("pixel"), Ok(Strategy::PixelResize)));
    assert!(matches!(select_filter("1to1"), Ok(Strategy::PixelExact)));
    assert!(select_filter("invalid").is_err());
}

#[test]
fn test_select_ramp() {
    let basic = select_ramp("basic").unwrap();
    assert_eq!(basic, b" .:-=+*#%@");

    let custom = select_ramp("abc").unwrap();
    assert_eq!(custom, b"abc");

    assert!(select_ramp("").is_err());
}

#[test]
fn test_image_to_ascii_1to1() {
    // A 2x2 checkerboard: dark where (x + y) is even, bright elsewhere.
    let img = Bitmap::from_luma(2, 2, vec![0, 255, 255, 0]).unwrap();
    let ramp = select_ramp("basic").unwrap();
    let result = image_to_ascii(&img, 10, 200, Strategy::PixelExact, ramp).unwrap();

    let lines: Vec<&str> = result.lines().collect();
    assert_eq!(lines.len(), 2);
}

#[test]
fn test_validate_image_args() {
    assert!(validate_image_args(120, 200).is_ok());
    assert!(validate_image_args(0, 200).is_err());
    assert!(validate_image_args(120, 10).is_err());
    assert!(validate_image_args(120, 1000).is_err());
}

#[test]
fn test_validate_hex_color() {
    assert!(validate_hex_color("ffffff").is_ok());
    assert!(validate_hex_color("000000").is_ok());
    assert!(validate_hex_color("ff0000").is_ok());
    assert!(validate_hex_color("gggggg").is_err());
    assert!(validate_hex_color("ffff").is_err());
}

#[test]
fn test_ascii_to_html() {
    let ascii = "Hello\nWorld";
    let config = HtmlConfig::default();
    let html = ascii_to_html(ascii, config).unwrap();

    assert!(html.contains("Hello"));
    assert!(html.contains("World"));
    assert!(html.contains("<!DOCTYPE html>"));
}

#[test]
fn test_empty_ascii() {
    let config = HtmlConfig::default();
    let html = ascii_to_html("", config).unwrap();
    assert_eq!(html, "");
}

#[test]
fn palette_extremes_map_to_ramp_ends() {
    // Luminance 0 lands on the darkest glyph and 255 on the brightest,
    // for palettes of several lengths.
    let img = Bitmap::from_luma(1, 2, vec![0, 255]).unwrap();
    for ramp in ["0123456789", "ab", "x"] {
        let out = image_to_ascii(&img, 5, 200, Strategy::PixelExact,
            select_ramp(ramp).unwrap()).unwrap();
        let first = ramp.chars().next().unwrap();
        let last = ramp.chars().last().unwrap();
        assert_eq!(out, format!("{}\n{}\n", first, last));
    }
}

#[test]
fn palette_index_formula_exact() {
    // Index = floor(luminance * (len - 1) / 255): luminance 128 on a
    // ten-glyph ramp selects glyph 4.
    let img = Bitmap::from_luma(1, 1, vec![128]).unwrap();
    let out = image_to_ascii(&img, 5, 200, Strategy::PixelExact,
        select_ramp("0123456789").unwrap()).unwrap();
    assert_eq!(out, "4\n");
}

#[test]
fn pixel_exact_shape_ignores_cols() {
    // 3 wide, 2 tall: the output is 2 rows of 3 glyphs whatever cols says.
    let img = Bitmap::from_luma(3, 2, vec![0, 0, 0, 0, 0, 0]).unwrap();
    for cols in [1, 7, 500] {
        let out = image_to_ascii(&img, cols, 300, Strategy::PixelExact,
            select_ramp("basic").unwrap()).unwrap();
        let lines: Vec<&str> = out.lines().collect();
        assert_eq!(lines.len(), 2);
        assert!(lines.iter().all(|l| l.len() == 3));
    }
}

#[test]
fn pixel_resize_samples_source_grid() {
    // With cols == width and aspect 1.00, PixelResize reads each source
    // pixel once: the checkerboard comes through exactly.
    let img = Bitmap::from_luma(2, 2, vec![0, 255, 255, 0]).unwrap();
    let out = image_to_ascii(&img, 2, 100, Strategy::PixelResize,
        select_ramp("basic").unwrap()).unwrap();
    assert_eq!(out, " @\n@ \n");
}

#[test]
fn pixel_resize_row_count_formula() {
    // rows = max(1, round(height * (cols / width) / aspect)).
    let img = Bitmap::from_luma(4, 4, vec![0; 16]).unwrap();
    let out = image_to_ascii(&img, 2, 200, Strategy::PixelResize,
        select_ramp("basic").unwrap()).unwrap();
    // 4 * (2/4) / 2.0 = 1 row.
    assert_eq!(out, "  \n");
    let out2 = image_to_ascii(&img, 8, 100, Strategy::PixelResize,
        select_ramp("basic").unwrap()).unwrap();
    // 4 * (8/4) / 1.0 = 8 rows of 8 columns.
    let lines: Vec<&str> = out2.lines().collect();
    assert_eq!(lines.len(), 8);
    assert!(lines.iter().all(|l| l.len() == 8));
}

#[test]
fn filtered_resize_shapes_and_values() {
    // Upscaling a uniform bright 1x1 image: 3 columns, rows =
    // max(1, round(1 * 3 / 2.0)) = 2, every glyph the brightest. This fails
    // if the resampling step hands its input buffer back unchanged.
    let img = Bitmap::from_luma(1, 1, vec![255]).unwrap();
    let out = image_to_ascii(&img, 3, 200,
        Strategy::FilteredResize { kernel: Kernel::Triangle },
        select_ramp("basic").unwrap()).unwrap();
    assert_eq!(out, "@@@\n@@@\n");
}

#[test]
fn filtered_resize_minimum_one_row() {
    // A wide, flat image still yields one row.
    let img = Bitmap::from_luma(8, 1, vec![0; 8]).unwrap();
    let out = image_to_ascii(&img, 2, 500,
        Strategy::FilteredResize { kernel: Kernel::Nearest },
        select_ramp("basic").unwrap()).unwrap();
    let lines: Vec<&str> = out.lines().collect();
    assert_eq!(lines.len(), 1);
    assert_eq!(lines[0].len(), 2);
}

#[test]
fn invalid_parameters_are_rejected() {
    let img = Bitmap::from_luma(2, 2, vec![0; 4]).unwrap();
    let ramp = select_ramp("basic").unwrap();
    assert!(matches!(
        image_to_ascii(&img, 0, 200, Strategy::PixelExact, ramp.clone()),
        Err(AsciiError::InvalidParameter { .. })
    ));
    assert!(matches!(
        image_to_ascii(&img, 2, 200, Strategy::PixelExact, vec![]),
        Err(AsciiError::InvalidParameter { .. })
    ));
    assert!(matches!(
        image_to_ascii(&img, 2, 10, Strategy::PixelExact, ramp.clone()),
        Err(AsciiError::InvalidParameter { .. })
    ));
    let empty = Bitmap::from_luma(0, 0, vec![]).unwrap();
    assert!(matches!(
        image_to_ascii(&empty, 2, 200, Strategy::PixelExact, ramp),
        Err(AsciiError::InvalidParameter { .. })
    ));
}

#[test]
fn unknown_strategy_message_lists_options() {
    let e = select_filter("blur").unwrap_err();
    match &e {
        AsciiError::UnknownStrategy { name } => assert_eq!(name, "blur"),
        _ => panic!("wrong error kind"),
    }
    let msg = e.message();
    assert!(msg.contains("nearest, triangle, lanczos3, pixel, 1to1"));
    assert_eq!(
        msg,
        "unknown resizer: blur. Available options: nearest, triangle, lanczos3, pixel, 1to1"
    );
}

#[test]
fn ramp_resolution_is_idempotent() {
    assert_eq!(select_ramp("basic").unwrap(), select_ramp("basic").unwrap());
    assert_eq!(select_ramp("classic").unwrap(), select_ramp("classic").unwrap());
    let custom = "q8#!";
    assert_eq!(select_ramp(custom).unwrap(), custom.as_bytes());
}

#[test]
fn classic_ramp_preset_bytes() {
    let classic = select_ramp("classic").unwrap();
    assert_eq!(classic.len(), 69);
    assert_eq!(
        classic,
        b" .'`^\",:;Il!i<>*+_-?][}{)(|\\/tfjrxnuvczXYUJCLQ0OZmwqpdbkhao*#MW&8%B@$"
    );
}

#[test]
fn ramp_errors_and_message() {
    let e = select_ramp("").unwrap_err();
    assert!(matches!(e, AsciiError::InvalidRamp));
    assert_eq!(e.message(), "ramp cannot be empty");
}

#[test]
fn html_escapes_markup_characters() {
    let html = ascii_to_html("a&b<c>d", HtmlConfig::default()).unwrap();
    assert!(html.contains("a&amp;b&lt;c&gt;d"));
}

#[test]
fn html_carries_configuration() {
    let config = HtmlConfig {
        font_size: 7,
        background_color: "112233".to_string(),
        text_color: "aabbcc".to_string(),
        font_family: "courier".to_string(),
    };
    let html = ascii_to_html("x", config).unwrap();
    assert!(html.contains("background-color: #112233;"));
    assert!(html.contains("color: #aabbcc;"));
    assert!(html.contains("font-family: courier, monospace;"));
    assert!(html.contains("font-size: 7px;"));
    assert!(html.contains("let fontSize = 7;"));
}

#[test]
fn io_error_messages_name_the_path() {
    let d = AsciiError::DecodeFailed { path: "frames/000001.png".to_string() };
    assert_eq!(d.message(), "failed to decode frames/000001.png");
    let io = AsciiError::IoFailed { path: "out/000001.txt".to_string() };
    assert_eq!(io.message(), "io failure at out/000001.txt");
}
