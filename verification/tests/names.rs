use novel_cli::images::{
    cover_image_name, ext_string, image_names, new_image_ext, new_image_name, ImageColor, ImageExt,
};
use novel_cli::names::{
    decimal_string, image_markdown_str, novel_file_name, num_to_str, to_epub_file_name, to_markdown_file_name,
    to_novel_dir_name,
};

#[test]
fn numbers_are_padded_to_three_digits() {
    assert_eq!(num_to_str(0), "000");
    assert_eq!(num_to_str(7), "007");
    assert_eq!(num_to_str(42), "042");
    assert_eq!(num_to_str(999), "999");
    assert_eq!(num_to_str(65535), "65535");
    assert_eq!(decimal_string(0), "0");
    assert_eq!(decimal_string(4294967295), "4294967295");
}

#[test]
fn file_names_are_sanitized() {
    assert_eq!(to_novel_dir_name("a/b:c"), "a b c");
    assert_eq!(to_markdown_file_name("书名"), "书名.md");
    assert_eq!(to_epub_file_name("a?b"), "a b.epub");
    assert_eq!(image_markdown_str("images/001.webp"), "![](images/001.webp)");
}

#[test]
fn image_formats_and_names() {
    assert_eq!(new_image_ext(ImageColor::Rgb8), Ok(ImageExt::Webp));
    assert_eq!(new_image_ext(ImageColor::La16), Ok(ImageExt::Png));
    assert_eq!(new_image_ext(ImageColor::Rgb32F), Err(ImageColor::Rgb32F));
    assert_eq!(ext_string(ImageExt::Webp), "webp");
    assert_eq!(cover_image_name(ImageColor::L8), Ok(String::from("cover.png")));
    assert_eq!(cover_image_name(ImageColor::Rgba32F), Err(ImageColor::Rgba32F));
    assert_eq!(new_image_name(ImageColor::Rgba8, 12), Ok(String::from("012.webp")));
    assert_eq!(
        image_names(&vec![ImageColor::Rgb8, ImageColor::Rgb32F, ImageColor::L16]),
        vec![Some(String::from("001.webp")), None, Some(String::from("002.png"))]
    );
}

#[test]
fn plain_names_are_kept() {
    assert_eq!(to_novel_dir_name("测试小说"), "测试小说");
    assert_eq!(to_novel_dir_name("con"), "con");
    assert_eq!(to_markdown_file_name("a.b"), "a.md");
}

#[test]
fn padded_names_sort_as_numbers() {
    assert!(num_to_str(9) < num_to_str(10));
    assert!(num_to_str(10) < num_to_str(99));
    assert!(num_to_str(99) < num_to_str(100));
    assert!(num_to_str(100) < num_to_str(999));
}

#[test]
fn separators_in_names_become_spaces() {
    assert_eq!(to_epub_file_name("a/b"), "a b.epub");
    assert_eq!(to_markdown_file_name("a\\b"), "a b.md");
    assert_eq!(to_novel_dir_name("a|b*c"), "a b c");
}

#[test]
fn extensions_replace_what_follows_the_last_dot() {
    assert_eq!(to_markdown_file_name("a.b.c"), "a.b.md");
    assert_eq!(to_markdown_file_name(".hidden"), ".hidden.md");
    assert_eq!(to_epub_file_name("a."), "a.epub");
    assert_eq!(novel_file_name("书", "txt"), "书.txt");
}
