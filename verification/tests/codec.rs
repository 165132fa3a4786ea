use image::{DynamicImage, GrayImage, ImageBuffer, Luma, LumaA, Rgb, RgbImage, Rgba, RgbaImage};
use image_compress::codec::{
    encode, encode_avif, encode_generic, encode_jpeg, encode_png, encode_webp, file_under,
    flatten_palette, quantizer_range, report_generic, write_quantized, EncodeError, ErrorKind,
    Quantized, QuantizerStage, AVIF_SPEED, QUANTIZER_BAND, WEBP_MAX_SIDE,
};
use image_compress::raster::{ColorMode, DecodedImage};

fn rgb(width: u32, height: u32) -> DecodedImage {
    let buffer = RgbImage::from_fn(width, height, |x, y| {
        Rgb([(x * 7 % 256) as u8, (y * 5 % 256) as u8, ((x + y) * 3 % 256) as u8])
    });
    DecodedImage::from_dynamic(DynamicImage::ImageRgb8(buffer)).unwrap()
}

fn rgba(width: u32, height: u32) -> DecodedImage {
    let buffer = RgbaImage::from_fn(width, height, |x, y| {
        Rgba([(x * 9 % 256) as u8, (y * 11 % 256) as u8, 40, if x < width / 2 { 255 } else { 90 }])
    });
    DecodedImage::from_dynamic(DynamicImage::ImageRgba8(buffer)).unwrap()
}

fn gray(width: u32, height: u32) -> DecodedImage {
    let buffer = GrayImage::from_fn(width, height, |x, y| Luma([((x * y) % 256) as u8]));
    DecodedImage::from_dynamic(DynamicImage::ImageLuma8(buffer)).unwrap()
}

fn gray_alpha(width: u32, height: u32) -> DecodedImage {
    let buffer: ImageBuffer<LumaA<u8>, Vec<u8>> =
        ImageBuffer::from_fn(width, height, |x, _| LumaA([(x % 256) as u8, 200]));
    DecodedImage::from_dynamic(DynamicImage::ImageLumaA8(buffer)).unwrap()
}

fn deep(width: u32, height: u32) -> DecodedImage {
    let buffer: ImageBuffer<Rgb<u16>, Vec<u16>> =
        ImageBuffer::from_fn(width, height, |x, y| Rgb([(x * 1000) as u16, (y * 900) as u16, 5]));
    DecodedImage::from_dynamic(DynamicImage::ImageRgb16(buffer)).unwrap()
}

fn has_transparency(bytes: &[u8]) -> bool {
    let decoder = png::Decoder::new(std::io::Cursor::new(bytes));
    let reader = decoder.read_info().unwrap();
    reader.info().trns.is_some()
}

fn png_summary(bytes: &[u8]) -> (png::ColorType, png::BitDepth, usize, u32, u32) {
    let decoder = png::Decoder::new(std::io::Cursor::new(bytes));
    let reader = decoder.read_info().unwrap();
    let info = reader.info();
    let palette = info.palette.as_ref().map(|p| p.len()).unwrap_or(0);
    (info.color_type, info.bit_depth, palette, info.width, info.height)
}

#[test]
fn tuning_constants_have_their_fixed_values() {
    assert_eq!(AVIF_SPEED, 4);
    assert_eq!(QUANTIZER_BAND, 20);
    assert_eq!(WEBP_MAX_SIDE, 16383);
}

#[test]
fn jpeg_round_trip_keeps_the_dimensions() {
    let bytes = encode_jpeg(&rgb(40, 24), 80).unwrap();
    assert_eq!(&bytes[..2], &[0xFF, 0xD8]);
    let back = image::load_from_memory(&bytes).unwrap();
    assert_eq!((back.width(), back.height()), (40, 24));
}

#[test]
fn jpeg_takes_grayscale() {
    let bytes = encode_jpeg(&gray(16, 16), 60).unwrap();
    let back = image::load_from_memory(&bytes).unwrap();
    assert_eq!((back.width(), back.height()), (16, 16));
}

#[test]
fn jpeg_quality_changes_the_output() {
    let img = rgb(64, 64);
    let low = encode_jpeg(&img, 10).unwrap();
    let high = encode_jpeg(&img, 95).unwrap();
    assert!(low.len() < high.len());
}

#[test]
fn jpeg_is_deterministic() {
    let img = rgb(32, 32);
    assert_eq!(encode_jpeg(&img, 70).unwrap(), encode_jpeg(&img, 70).unwrap());
}

#[test]
fn jpeg_refuses_layouts_it_does_not_take() {
    for img in [rgba(8, 8), gray_alpha(8, 8), deep(8, 8)] {
        let err = encode_jpeg(&img, 80).unwrap_err();
        assert_eq!(err.kind, ErrorKind::Jpeg);
        assert!(!err.detail.is_empty());
        assert_eq!(err.message(), err.detail);
    }
}

#[test]
fn webp_round_trip_keeps_the_dimensions() {
    let bytes = encode_webp(&rgb(40, 24), 80).unwrap();
    assert_eq!(&bytes[..4], b"RIFF");
    assert_eq!(&bytes[8..12], b"WEBP");
    let back = image::load_from_memory(&bytes).unwrap();
    assert_eq!((back.width(), back.height()), (40, 24));
}

#[test]
fn webp_takes_transparency() {
    let bytes = encode_webp(&rgba(20, 10), 50).unwrap();
    let back = image::load_from_memory(&bytes).unwrap();
    assert_eq!((back.width(), back.height()), (20, 10));
}

#[test]
fn webp_refuses_layouts_it_does_not_take() {
    for img in [gray(8, 8), gray_alpha(8, 8), deep(8, 8)] {
        let err = encode_webp(&img, 80).unwrap_err();
        assert_eq!(err.kind, ErrorKind::WebpInit);
        assert_eq!(err.message(), "Erreur init WebP");
    }
}

#[test]
fn webp_refuses_an_image_beyond_its_largest_side() {
    for img in [rgb(16384, 1), rgb(1, 16384), gray(16384, 1), rgba(20000, 2)] {
        let err = encode_webp(&img, 80).unwrap_err();
        assert_eq!(err.kind, ErrorKind::WebpSize);
        assert_eq!(err.detail, "");
        assert_eq!(err.message(), "Erreur WebP: image too large");
    }
}

#[test]
fn webp_takes_an_image_of_its_largest_side() {
    let bytes = encode_webp(&rgb(16383, 1), 80).unwrap();
    let reader = image::ImageReader::new(std::io::Cursor::new(&bytes)).with_guessed_format().unwrap();
    assert_eq!(reader.into_dimensions().unwrap(), (16383, 1));
    let bytes = encode_webp(&rgba(2, 16383), 80).unwrap();
    let reader = image::ImageReader::new(std::io::Cursor::new(&bytes)).with_guessed_format().unwrap();
    assert_eq!(reader.into_dimensions().unwrap(), (2, 16383));
    assert_eq!(encode_webp(&gray(16383, 1), 80).unwrap_err().kind, ErrorKind::WebpInit);
}

#[test]
fn webp_reports_a_quality_the_codec_rejects() {
    let err = encode_webp(&rgb(8, 8), 101).unwrap_err();
    assert_eq!(err.kind, ErrorKind::Webp);
    assert!(err.message().starts_with("Erreur WebP: "));
    assert!(err.message().len() > "Erreur WebP: ".len());
}

#[test]
fn webp_is_deterministic() {
    let img = rgb(32, 32);
    assert_eq!(encode_webp(&img, 70).unwrap(), encode_webp(&img, 70).unwrap());
}

#[test]
fn png_is_indexed_with_eight_bits_for_every_quality() {
    let img = rgba(24, 16);
    for quality in [0u8, 1, 19, 20, 21, 50, 80, 99, 100] {
        match encode_png(&img, quality) {
            Ok(bytes) => {
                let (color, depth, palette, width, height) = png_summary(&bytes);
                assert_eq!(color, png::ColorType::Indexed);
                assert_eq!(depth, png::BitDepth::Eight);
                assert!(palette >= 3 && palette <= 768);
                assert_eq!(palette % 3, 0);
                assert_eq!((width, height), (24, 16));
                assert_eq!(bytes[24], 8);
                assert_eq!(bytes[25], 3);
                assert_eq!(&bytes[37..41], b"PLTE");
                let stated = u32::from_be_bytes([bytes[33], bytes[34], bytes[35], bytes[36]]);
                assert_eq!(stated as usize, palette);
            }
            Err(err) => {
                // Only the quantizer may decline, and only for want of quality.
                assert_eq!(err.kind, ErrorKind::Quantize, "quality {quality}: {}", err.message());
            }
        }
    }
}

#[test]
fn png_of_a_simple_image_is_indexed_at_every_quality() {
    // Four flat colours: the quantizer always meets its minimum.
    let buffer = RgbImage::from_fn(8, 8, |x, y| {
        Rgb([if x < 4 { 0 } else { 255 }, if y < 4 { 0 } else { 255 }, 128])
    });
    let img = DecodedImage::from_dynamic(DynamicImage::ImageRgb8(buffer)).unwrap();
    for quality in 0..=100u8 {
        let bytes = encode_png(&img, quality).unwrap();
        let (color, depth, palette, width, height) = png_summary(&bytes);
        assert_eq!(color, png::ColorType::Indexed, "quality {quality}");
        assert_eq!(depth, png::BitDepth::Eight, "quality {quality}");
        assert!(palette >= 3 && palette <= 768 && palette % 3 == 0, "quality {quality}");
        assert_eq!((width, height), (8, 8));
    }
}

#[test]
fn png_of_many_colours_has_a_full_palette_and_no_more() {
    let buffer = RgbImage::from_fn(64, 64, |x, y| Rgb([(x * 4) as u8, (y * 4) as u8, (x * y % 256) as u8]));
    let img = DecodedImage::from_dynamic(DynamicImage::ImageRgb8(buffer)).unwrap();
    let bytes = encode_png(&img, 20).unwrap();
    let (color, depth, palette, _, _) = png_summary(&bytes);
    assert_eq!(color, png::ColorType::Indexed);
    assert_eq!(depth, png::BitDepth::Eight);
    assert!(palette > 3 && palette <= 768 && palette % 3 == 0);
}

#[test]
fn png_palette_carries_no_transparency() {
    let bytes = encode_png(&rgba(24, 16), 20).unwrap();
    assert!(!has_transparency(&bytes));
    assert_eq!(png_summary(&bytes).0, png::ColorType::Indexed);
    let back = image::load_from_memory(&bytes).unwrap();
    assert!(!back.color().has_alpha());
}

#[test]
fn png_of_a_flat_image_succeeds() {
    let buffer = RgbImage::from_pixel(10, 10, Rgb([12, 34, 56]));
    let img = DecodedImage::from_dynamic(DynamicImage::ImageRgb8(buffer)).unwrap();
    let bytes = encode_png(&img, 100).unwrap();
    let (color, depth, palette, width, height) = png_summary(&bytes);
    assert_eq!(color, png::ColorType::Indexed);
    assert_eq!(depth, png::BitDepth::Eight);
    assert!(palette >= 3);
    assert_eq!((width, height), (10, 10));
    let back = image::load_from_memory(&bytes).unwrap().to_rgb8();
    assert_eq!(back.get_pixel(5, 5), &Rgb([12, 34, 56]));
}

#[test]
fn png_takes_every_layout() {
    for img in [rgb(12, 9), gray(12, 9), gray_alpha(12, 9), deep(12, 9)] {
        let bytes = encode_png(&img, 100).unwrap();
        let back = image::load_from_memory(&bytes).unwrap();
        assert_eq!((back.width(), back.height()), (12, 9));
    }
}

#[test]
fn png_refuses_a_quality_above_one_hundred() {
    for quality in [101u8, 150, 255] {
        let err = encode_png(&rgb(8, 8), quality).unwrap_err();
        assert_eq!(err.kind, ErrorKind::QuantizerConfig);
        assert_eq!(err.message(), "Liq config: ValueOutOfRange");
    }
}

#[test]
fn quantizer_range_is_a_band_below_the_quality() {
    assert_eq!(quantizer_range(0), (0, 0));
    assert_eq!(quantizer_range(19), (0, 19));
    assert_eq!(quantizer_range(20), (0, 20));
    assert_eq!(quantizer_range(21), (1, 21));
    assert_eq!(quantizer_range(80), (60, 80));
    assert_eq!(quantizer_range(100), (80, 100));
    assert_eq!(quantizer_range(255), (235, 255));
}

#[test]
fn palette_is_written_without_alpha() {
    assert_eq!(flatten_palette(&vec![1, 2, 3, 4, 5, 6, 7, 8]), vec![1, 2, 3, 5, 6, 7]);
    assert_eq!(flatten_palette(&vec![9, 8, 7, 0]), vec![9, 8, 7]);
    assert_eq!(flatten_palette(&Vec::new()), Vec::<u8>::new());
    // Bytes that do not make a whole colour are left out.
    assert_eq!(flatten_palette(&vec![1, 2, 3, 4, 5, 6]), vec![1, 2, 3]);
}

#[test]
fn quantizer_failures_are_reported_by_stage() {
    let cases = [
        (QuantizerStage::Config, ErrorKind::QuantizerConfig, "Liq config: X"),
        (QuantizerStage::Image, ErrorKind::QuantizerImage, "Liq image: X"),
        (QuantizerStage::Quantize, ErrorKind::Quantize, "Liq quantize: X"),
        (QuantizerStage::Remap, ErrorKind::Remap, "Liq remap: X"),
    ];
    for (stage, kind, message) in cases {
        let err = write_quantized(2, 2, Err((stage, "X".to_string()))).unwrap_err();
        assert_eq!(err.kind, kind);
        assert_eq!(err.message(), message);
    }
}

#[test]
fn a_palette_without_colours_is_refused() {
    let empty = Quantized { palette: Vec::new(), indices: vec![0, 0, 0, 0] };
    let err = write_quantized(2, 2, Ok(empty)).unwrap_err();
    assert_eq!(err.kind, ErrorKind::EmptyPalette);
    assert_eq!(err.message(), "Liq remap: empty palette");
}

#[test]
fn a_quantized_image_is_written_as_it_is() {
    let quantized = Quantized {
        palette: vec![255, 0, 0, 255, 0, 0, 255, 128],
        indices: vec![0, 1, 1, 0, 0, 0],
    };
    let bytes = write_quantized(3, 2, Ok(quantized)).unwrap();
    let (color, depth, palette, width, height) = png_summary(&bytes);
    assert_eq!(color, png::ColorType::Indexed);
    assert_eq!(depth, png::BitDepth::Eight);
    assert_eq!(palette, 6);
    assert_eq!((width, height), (3, 2));
    assert_eq!(&bytes[41..47], &[255, 0, 0, 0, 0, 255]);
    let back = image::load_from_memory(&bytes).unwrap().to_rgb8();
    assert_eq!(back.get_pixel(0, 0), &Rgb([255, 0, 0]));
    assert_eq!(back.get_pixel(1, 0), &Rgb([0, 0, 255]));
    assert_eq!(back.get_pixel(0, 1), &Rgb([255, 0, 0]));
}

#[test]
fn the_png_writer_reports_a_wrong_index_count() {
    let quantized = Quantized { palette: vec![1, 2, 3, 255], indices: vec![0, 0, 0] };
    let err = write_quantized(2, 2, Ok(quantized)).unwrap_err();
    assert_eq!(err.kind, ErrorKind::Png);
    assert!(!err.detail.is_empty());
    assert_eq!(err.message(), err.detail);
}

#[test]
fn avif_refuses_a_quality_outside_its_range() {
    for quality in [0u8, 101, 255] {
        let err = encode_avif(&rgb(8, 8), quality).unwrap_err();
        assert_eq!(err.kind, ErrorKind::AvifQuality);
        assert_eq!(err.message(), "Erreur AVIF: quality out of range");
    }
}

#[test]
fn avif_output_is_an_avif_file() {
    let bytes = encode_avif(&rgba(16, 16), 60).unwrap();
    assert_eq!(&bytes[4..8], b"ftyp");
    assert_eq!(&bytes[8..12], b"avif");
}

#[test]
fn avif_takes_the_ends_of_its_quality_range() {
    assert!(encode_avif(&rgb(8, 8), 1).is_ok());
    assert!(encode_avif(&rgb(8, 8), 100).is_ok());
}

#[test]
fn outside_errors_are_filed_under_their_kind() {
    assert_eq!(file_under(Ok(vec![1, 2, 3]), ErrorKind::Avif).unwrap(), vec![1, 2, 3]);
    let err = file_under(Err("boom".to_string()), ErrorKind::Avif).unwrap_err();
    assert_eq!(err.kind, ErrorKind::Avif);
    assert_eq!(err.detail, "boom");
    assert_eq!(err.message(), "Erreur AVIF: boom");
}

#[test]
fn every_kind_has_its_message() {
    let cases = [
        (ErrorKind::WebpSize, "Erreur WebP: image too larged"),
        (ErrorKind::WebpInit, "Erreur init WebPd"),
        (ErrorKind::Webp, "Erreur WebP: d"),
        (ErrorKind::AvifQuality, "Erreur AVIF: quality out of ranged"),
        (ErrorKind::Avif, "Erreur AVIF: d"),
        (ErrorKind::QuantizerConfig, "Liq config: d"),
        (ErrorKind::QuantizerImage, "Liq image: d"),
        (ErrorKind::Quantize, "Liq quantize: d"),
        (ErrorKind::Remap, "Liq remap: d"),
        (ErrorKind::EmptyPalette, "Liq remap: empty paletted"),
        (ErrorKind::Png, "d"),
        (ErrorKind::Jpeg, "d"),
        (ErrorKind::UnknownFormat, "Unsupported format: d"),
        (ErrorKind::Generic, "d"),
    ];
    for (kind, message) in cases {
        let err = EncodeError { kind, detail: "d".to_string() };
        assert_eq!(err.message(), message);
    }
    assert_eq!(EncodeError::bare(ErrorKind::WebpInit).message(), "Erreur init WebP");
    assert_eq!(EncodeError::bare(ErrorKind::WebpInit).detail, "");
}

#[test]
fn other_tags_are_read_as_extensions() {
    let bmp = encode_generic(&rgb(6, 4), "bmp").unwrap();
    assert_eq!(&bmp[..2], b"BM");
    let back = image::load_from_memory(&bmp).unwrap();
    assert_eq!((back.width(), back.height()), (6, 4));
    let gif = encode_generic(&rgb(6, 4), "GIF").unwrap();
    assert_eq!(&gif[..3], b"GIF");
}

#[test]
fn a_failure_of_the_generic_encoder_is_reported_in_its_words() {
    // Icons are at most 256 pixels wide.
    let err = encode_generic(&rgb(300, 2), "ico").unwrap_err();
    assert_eq!(err.kind, ErrorKind::Generic);
    assert!(!err.detail.is_empty());
    assert_eq!(err.message(), err.detail);
}

#[test]
fn an_unknown_extension_is_reported_with_its_name() {
    let err = encode_generic(&rgb(6, 4), "xyz").unwrap_err();
    assert_eq!(err.kind, ErrorKind::UnknownFormat);
    assert_eq!(err.detail, "xyz");
    assert_eq!(err.message(), "Unsupported format: xyz");
}

#[test]
fn generic_results_are_reported_as_they_come() {
    assert_eq!(report_generic("bmp", Ok(vec![7])).unwrap(), vec![7]);
    let failed = report_generic("bmp", Err(Some("no".to_string()))).unwrap_err();
    assert_eq!((failed.kind, failed.message()), (ErrorKind::Generic, "no".to_string()));
    let unknown = report_generic("q", Err(None)).unwrap_err();
    assert_eq!((unknown.kind, unknown.detail), (ErrorKind::UnknownFormat, "q".to_string()));
}

#[test]
fn encode_selects_the_encoder_by_tag() {
    let img = rgb(16, 12);
    assert_eq!(encode(&img, "jpg", 75).unwrap(), encode_jpeg(&img, 75).unwrap());
    assert_eq!(encode(&img, "jpeg", 75).unwrap(), encode_jpeg(&img, 75).unwrap());
    assert_eq!(encode(&img, "webp", 75).unwrap(), encode_webp(&img, 75).unwrap());
    let png = encode(&img, "png", 100).unwrap();
    assert_eq!(png_summary(&png).0, png::ColorType::Indexed);
    let avif = encode(&img, "avif", 50).unwrap();
    assert_eq!(&avif[4..12], b"ftypavif");
    let bmp = encode(&img, "bmp", 50).unwrap();
    assert_eq!(&bmp[..2], b"BM");
    assert_eq!(encode(&img, "nope", 50).unwrap_err().kind, ErrorKind::UnknownFormat);
}

#[test]
fn an_upper_case_tag_takes_the_generic_path() {
    // `JPG` is not a tuned tag: the generic encoder writes a JPEG with its
    // own default quality, whatever quality is configured.
    let img = rgb(16, 12);
    let low = encode(&img, "JPG", 1).unwrap();
    let high = encode(&img, "JPG", 100).unwrap();
    assert_eq!(low, high);
    assert_eq!(&low[..2], &[0xFF, 0xD8]);
}

#[test]
fn layouts_are_reported_as_decoded() {
    assert_eq!(rgb(2, 2).color(), ColorMode::Rgb8);
    assert_eq!(rgba(2, 2).color(), ColorMode::Rgba8);
    assert_eq!(gray(2, 2).color(), ColorMode::L8);
    assert_eq!(gray_alpha(2, 2).color(), ColorMode::La8);
    assert_eq!(deep(2, 2).color(), ColorMode::Rgb16);
}

#[test]
fn the_generic_encoder_knows_its_extensions_in_any_case() {
    let known = [
        "avif", "jpg", "jpeg", "jfif", "png", "apng", "gif", "webp", "tif", "tiff", "tga", "dds",
        "bmp", "ico", "hdr", "exr", "pbm", "pam", "ppm", "pgm", "pnm", "ff", "qoi",
    ];
    let img = rgb(4, 4);
    for ext in known {
        let mut mixed = ext.to_uppercase();
        mixed.replace_range(..1, &ext[..1]);
        for spelling in [ext.to_string(), ext.to_uppercase(), mixed] {
            match encode_generic(&img, &spelling) {
                Ok(bytes) => assert!(!bytes.is_empty(), "{spelling}"),
                Err(err) => assert_eq!(err.kind, ErrorKind::Generic, "{spelling}: {}", err.message()),
            }
        }
    }
}

#[test]
fn the_generic_encoder_refuses_every_other_extension() {
    let unknown = [
        "", "xyz", "jpe", "jpgx", "xjpg", "pcx", "svg", "heic", "png ", " png", ".png", "tiffs",
        "j", "f", "jp2", "\u{ff50}\u{ff4e}\u{ff47}", "pn\u{e9}", "\u{212a}",
    ];
    let img = rgb(4, 4);
    for ext in unknown {
        let err = encode_generic(&img, ext).unwrap_err();
        assert_eq!(err.kind, ErrorKind::UnknownFormat, "{ext:?}");
        assert_eq!(err.detail, ext);
        assert_eq!(err.message(), format!("Unsupported format: {ext}"));
    }
}
