use image_compress::format::{get_image_format, output_extension, OutputFormat};
use image_compress::naming::{
    get_unique_path, numbered_file_name, output_file_name, split_file_name, UniqueNamer,
};
use image_compress::text::{find_last, push_decimal};

fn decimal(n: u64) -> String {
    let mut s = String::new();
    push_decimal(&mut s, n);
    s
}

#[test]
fn tags_select_their_formats() {
    assert_eq!(get_image_format("jpg"), OutputFormat::Jpeg);
    assert_eq!(get_image_format("jpeg"), OutputFormat::Jpeg);
    assert_eq!(get_image_format("png"), OutputFormat::Png);
    assert_eq!(get_image_format("webp"), OutputFormat::WebP);
    assert_eq!(get_image_format("avif"), OutputFormat::Avif);
}

#[test]
fn other_tags_select_the_generic_path() {
    assert_eq!(get_image_format("bmp"), OutputFormat::Other);
    assert_eq!(get_image_format("JPG"), OutputFormat::Other);
    assert_eq!(get_image_format(""), OutputFormat::Other);
    assert_eq!(get_image_format("jpg "), OutputFormat::Other);
}

#[test]
fn jpeg_is_written_with_the_short_extension() {
    assert_eq!(output_extension("jpeg"), "jpg");
    assert_eq!(output_extension("jpg"), "jpg");
    assert_eq!(output_extension("png"), "png");
    assert_eq!(output_extension("webp"), "webp");
    assert_eq!(output_extension("avif"), "avif");
    assert_eq!(output_extension("tiff"), "tiff");
}

#[test]
fn output_names_carry_the_stem_and_the_extension() {
    assert_eq!(output_file_name("photo", "webp"), "photo-compressed.webp");
    assert_eq!(output_file_name("photo", "jpeg"), "photo-compressed.jpg");
    assert_eq!(output_file_name("my.holiday", "png"), "my.holiday-compressed.png");
    assert_eq!(output_file_name("", "avif"), "-compressed.avif");
    assert_eq!(output_file_name("caf\u{e9}", "jpg"), "caf\u{e9}-compressed.jpg");
}

#[test]
fn decimal_notation_has_no_leading_zeros() {
    assert_eq!(decimal(0), "0");
    assert_eq!(decimal(7), "7");
    assert_eq!(decimal(10), "10");
    assert_eq!(decimal(109), "109");
    assert_eq!(decimal(12345), "12345");
    assert_eq!(decimal(u64::MAX), "18446744073709551615");
}

#[test]
fn decimal_is_appended_to_what_is_there() {
    let mut s = String::from("n=");
    push_decimal(&mut s, 42);
    assert_eq!(s, "n=42");
}

#[test]
fn last_occurrence_is_found_by_character_position() {
    assert_eq!(find_last("a.b.c", '.'), Some(3));
    assert_eq!(find_last("abc", '.'), None);
    assert_eq!(find_last("", '.'), None);
    assert_eq!(find_last(".", '.'), Some(0));
    assert_eq!(find_last("\u{e9}\u{e9}.x", '.'), Some(2));
}

#[test]
fn names_part_at_their_last_dot() {
    assert_eq!(split_file_name("a.b.c"), ("a.b".to_string(), Some("c".to_string())));
    assert_eq!(split_file_name("photo.jpg"), ("photo".to_string(), Some("jpg".to_string())));
    assert_eq!(split_file_name("x."), ("x".to_string(), Some(String::new())));
    assert_eq!(
        split_file_name("\u{e9}t\u{e9}.png"),
        ("\u{e9}t\u{e9}".to_string(), Some("png".to_string()))
    );
}

#[test]
fn names_without_an_extension_are_their_own_stem() {
    assert_eq!(split_file_name("noext"), ("noext".to_string(), None));
    assert_eq!(split_file_name(".hidden"), (".hidden".to_string(), None));
    assert_eq!(split_file_name(""), (String::new(), None));
}

#[test]
fn numbers_go_before_the_extension() {
    assert_eq!(numbered_file_name("a", &Some("png".to_string()), 1), "a-1.png");
    assert_eq!(numbered_file_name("a", &Some("png".to_string()), 10), "a-10.png");
    assert_eq!(numbered_file_name("a", &None, 3), "a-3");
    assert_eq!(numbered_file_name("a", &Some(String::new()), 3), "a-3.");
}

#[test]
fn namer_proposes_the_desired_name_first() {
    let namer = UniqueNamer::new("cat-compressed.webp");
    assert_eq!(namer.attempts(), 0);
    assert_eq!(namer.candidate(), "cat-compressed.webp");
}

#[test]
fn namer_counts_up_without_skipping() {
    let mut namer = UniqueNamer::new("cat-compressed.webp");
    for n in 1..=12u64 {
        assert!(namer.advance());
        assert_eq!(namer.attempts(), n);
        assert_eq!(namer.candidate(), format!("cat-compressed-{n}.webp"));
    }
}

#[test]
fn a_free_name_is_returned_unchanged() {
    let existing: Vec<String> = vec!["other.png".to_string()];
    assert_eq!(get_unique_path("a-compressed.png", &existing), "a-compressed.png");
    assert_eq!(get_unique_path("a-compressed.png", &Vec::new()), "a-compressed.png");
}

#[test]
fn n_existing_files_give_suffix_n() {
    let mut existing: Vec<String> = Vec::new();
    for n in 0..25u64 {
        let free = get_unique_path("a-compressed.png", &existing);
        if n == 0 {
            assert_eq!(free, "a-compressed.png");
        } else {
            assert_eq!(free, format!("a-compressed-{n}.png"));
        }
        assert!(!existing.contains(&free));
        existing.push(free);
    }
}

#[test]
fn the_first_gap_is_filled() {
    let existing: Vec<String> = vec![
        "a.png".to_string(),
        "a-2.png".to_string(),
        "a-3.png".to_string(),
    ];
    assert_eq!(get_unique_path("a.png", &existing), "a-1.png");
}

#[test]
fn duplicates_in_the_listing_do_not_matter() {
    let existing: Vec<String> = vec![
        "a.png".to_string(),
        "a.png".to_string(),
        "a-1.png".to_string(),
        "a.png".to_string(),
    ];
    assert_eq!(get_unique_path("a.png", &existing), "a-2.png");
}

#[test]
fn names_without_extension_get_a_plain_suffix() {
    let existing: Vec<String> = vec!["README".to_string()];
    assert_eq!(get_unique_path("README", &existing), "README-1");
}
