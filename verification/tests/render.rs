use novel_cli::images::image_names;
use novel_cli::render::{image_colors, image_places, numbering_fits_novel};
use novel_cli::convert::{Convert, ConvertError, OpenccMode};
use novel_cli::images::ImageColor;
use novel_cli::novel::{Chapter, Content, Novel, Volume};
use novel_cli::render::{
    book_config, chapter_file_name, cover_page, introduction_page, mdbook_chapter_pages,
    mdbook_summary, pandoc_document, pandoc_metadata, summary_text, volume_dir_name,
};

fn no_opencc(_mode: OpenccMode, _text: &String) -> Result<String, ConvertError> {
    Err(ConvertError {
        message: String::from("not needed"),
    })
}

fn chapter(id: u32, title: &str, contents: Vec<Content<ImageColor>>) -> Chapter<ImageColor> {
    Chapter {
        id,
        title: String::from(title),
        contents,
    }
}

fn text(s: &str) -> Content<ImageColor> {
    Content::Text(String::from(s))
}

fn sample_novel() -> Novel<ImageColor> {
    Novel {
        name: String::from("测试小说"),
        author_name: String::from("作者"),
        introduction: Some(vec![String::from("第一行"), String::from("第二行")]),
        cover_image: Some(ImageColor::Rgb8),
        volumes: vec![
            Volume {
                title: String::from("第一卷"),
                chapters: vec![
                    chapter(
                        1,
                        "第一章",
                        vec![
                            text("段落一"),
                            Content::Image(ImageColor::Rgba8),
                            Content::Image(ImageColor::Rgb32F),
                        ],
                    ),
                    chapter(2, "第二章", vec![text("段落二"), Content::Image(ImageColor::L8)]),
                ],
            },
            Volume {
                title: String::from("空卷"),
                chapters: vec![],
            },
            Volume {
                title: String::from("第三卷"),
                chapters: vec![chapter(3, "第三章", vec![])],
            },
        ],
    }
}

#[test]
fn numbered_names() {
    assert_eq!(volume_dir_name(1), "volume001");
    assert_eq!(volume_dir_name(12), "volume012");
    assert_eq!(chapter_file_name(123), "chapter123.md");
    assert_eq!(chapter_file_name(1234), "chapter1234.md");
}

#[test]
fn summary_lists_volumes_with_chapters() {
    let novel = sample_novel();
    let expected = "# 目录\n\n\
        - [封面](cover.md)\n\n\
        - [简介](introduction.md)\n\n\
        - [第一卷](volume001/README.md)\n\
        \x20 - [第一章](volume001/chapter001.md)\n\
        \x20 - [第二章](volume001/chapter002.md)\n\
        - [第三卷](volume003/README.md)\n\
        \x20 - [第三章](volume003/chapter003.md)\n";
    assert_eq!(summary_text(&novel, "目录", "封面", "简介"), expected);
    assert_eq!(mdbook_summary(&novel, &[], &no_opencc).unwrap(), expected);
}

#[test]
fn summary_without_cover_or_introduction() {
    let mut novel = sample_novel();
    novel.cover_image = None;
    novel.introduction = None;
    novel.volumes.truncate(1);
    assert_eq!(
        summary_text(&novel, "T", "C", "I"),
        "# T\n\n- [第一卷](volume001/README.md)\n  - [第一章](volume001/chapter001.md)\n  - [第二章](volume001/chapter002.md)\n"
    );
}

#[test]
fn mdbook_pages_number_images_across_chapters() {
    let novel = sample_novel();
    let pages = mdbook_chapter_pages(&novel, "../images/");
    let got: Vec<(String, String)> = pages.into_iter().map(|p| (p.path, p.text)).collect();
    assert_eq!(
        got,
        vec![
            (String::from("volume001/README.md"), String::from("# 第一卷\n")),
            (
                String::from("volume001/chapter001.md"),
                String::from("# 第一章\n\n段落一\n\n![](../images/001.webp)\n")
            ),
            (
                String::from("volume001/chapter002.md"),
                String::from("# 第二章\n\n段落二\n\n![](../images/002.png)\n")
            ),
            (String::from("volume003/README.md"), String::from("# 第三卷\n")),
            (String::from("volume003/chapter003.md"), String::from("# 第三章\n\n")),
        ]
    );
}

#[test]
fn cover_and_introduction_pages() {
    assert_eq!(
        cover_page("封面", ImageColor::Rgba8, "images/"),
        "# 封面\n\n![](images/cover.webp)\n"
    );
    assert_eq!(cover_page("封面", ImageColor::Rgba32F, "images/"), "# 封面\n");
    assert_eq!(
        introduction_page("简介", &vec![String::from("a"), String::from("b")]),
        "# 简介\n\na\n\nb\n"
    );
    assert_eq!(introduction_page("简介", &vec![]), "# 简介\n\n");
}

#[test]
fn pandoc_document_layout() {
    let novel = sample_novel();
    let doc = pandoc_document(&novel, "---\nx: 1\n---\n", &[], &no_opencc).unwrap();
    assert_eq!(
        doc,
        "---\nx: 1\n---\n\n\
         # 简介\n\n第一行\n\n第二行\n\n\
         # 第一卷\n\n## 第一章\n\n段落一\n\n![](001.webp)\n\n## 第二章\n\n段落二\n\n![](002.png)\n\n\
         # 第三卷\n\n## 第三章\n\n"
            .trim_end_matches('\n')
            .to_string()
            + "\n"
    );
}

#[test]
fn pandoc_metadata_values() {
    let novel = sample_novel();
    let m = pandoc_metadata(&novel, &[Convert::S2T]);
    assert_eq!(m.title, "测试小说");
    assert_eq!(m.author, "作者");
    assert_eq!(m.lang, "zh-Hant");
    assert_eq!(m.description.as_deref(), Some("第一行\n第二行"));
    assert_eq!(m.cover_image.as_deref(), Some("cover.webp"));
    let c = book_config(&novel, &[]);
    assert_eq!(c.title, "测试小说");
    assert_eq!(c.authors, vec![String::from("作者")]);
    assert_eq!(c.description.as_deref(), Some("第一行\n第二行"));
    assert!(c.no_section_label);
}

#[test]
fn images_are_found_in_order() {
    let novel = sample_novel();
    assert_eq!(
        image_colors(&novel),
        vec![ImageColor::Rgba8, ImageColor::Rgb32F, ImageColor::L8]
    );
    assert_eq!(image_places(&novel), vec![(0, 0, 1), (0, 0, 2), (0, 1, 1)]);
    assert_eq!(
        image_names(&image_colors(&novel)),
        vec![Some(String::from("001.webp")), None, Some(String::from("002.png"))]
    );
    assert!(numbering_fits_novel(&novel));
    let mut big = sample_novel();
    big.volumes[0].chapters[0].contents = (0..65535).map(|_| Content::Image(ImageColor::Rgb8)).collect();
    assert!(!numbering_fits_novel(&big));
}
