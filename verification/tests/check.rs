use novel_cli::check::{check_event, check_image_urls, check_markdown, CheckEvent};
use novel_cli::tables::CharSet;
use novel_cli::check::{
    check_chapter_title, check_metadata, check_volume_title, CheckWarning, MetadataError,
};
use novel_cli::convert::Lang;
use novel_cli::markdown::Metadata;

#[test]
fn check_chapter_title_test() {
    assert!(check_chapter_title("第一章 被俘虏的开始", Lang::ZhHans));
    assert!(check_chapter_title(
        "第一百三十二章 标标标标标标标标标",
        Lang::ZhHans
    ));
    assert!(check_chapter_title("第123章 标题标标标标", Lang::ZhHans));
    assert!(!check_chapter_title("第一章 ", Lang::ZhHans));
    assert!(!check_chapter_title("第1二3话", Lang::ZhHans));
    assert!(!check_chapter_title("第123话标题", Lang::ZhHans));
    assert!(!check_chapter_title("123话 标题", Lang::ZhHans));
}

#[test]
fn check_volume_title_test() {
    assert!(check_volume_title(
        "第三十二卷 标标标标标标标标标",
        Lang::ZhHans
    ));
    assert!(!check_volume_title("第123话 标题标标标标", Lang::ZhHans));
    assert!(!check_volume_title("第1卷 ", Lang::ZhHans));
}

fn metadata(lang: &str, cover: Option<&str>) -> Metadata {
    Metadata {
        title: String::from("书"),
        author: String::from("作者"),
        lang: String::from(lang),
        description: None,
        cover_image: cover.map(String::from),
    }
}

#[test]
fn metadata_check_reports_each_error() {
    assert_eq!(
        check_metadata(&metadata("zh-Hans", None), false),
        Ok(Lang::ZhHans)
    );
    assert_eq!(
        check_metadata(&metadata("zh-Hant", Some("cover.webp")), true),
        Ok(Lang::ZhHant)
    );
    assert_eq!(
        check_metadata(&metadata("zh-Hant", Some("cover.webp")), false),
        Err(MetadataError::MissingCoverImage)
    );
    assert_eq!(
        check_metadata(&metadata("en", None), false),
        Err(MetadataError::UnknownLang)
    );
}

#[test]
fn check_events_report_each_char_once() {
    let mut seen = CharSet::new();
    let text = CheckEvent::Text {
        text: String::from("好★好★☆"),
        source: String::from(" 好★好★☆ "),
    };
    let found = check_event(&text, true, Lang::ZhHans, false, &mut seen);
    assert_eq!(found.len(), 2);
    assert!(matches!(&found[0], CheckWarning::IrregularChar('★', s) if s == "好★好★☆"));
    assert!(matches!(&found[1], CheckWarning::IrregularChar('☆', _)));
    assert!(check_event(&text, true, Lang::ZhHans, false, &mut seen).is_empty());
    let heading = CheckEvent::Heading { level: 2, source: String::from("## 第1章 开始") };
    assert!(check_event(&heading, true, Lang::ZhHans, false, &mut seen).is_empty());
    let heading = CheckEvent::Heading { level: 1, source: String::from("# 简介") };
    assert!(check_event(&heading, true, Lang::ZhHans, false, &mut seen).is_empty());
    let heading = CheckEvent::Heading { level: 3, source: String::from("### x") };
    assert!(matches!(
        &check_event(&heading, true, Lang::ZhHans, false, &mut seen)[..],
        [CheckWarning::IrregularHeadingLevel { level: 3, title }] if title == "x"
    ));
    let image = CheckEvent::Image { dest_url: String::from("001.webp") };
    assert!(matches!(
        &check_event(&image, false, Lang::ZhHans, true, &mut seen)[..],
        [CheckWarning::MissingImage(u)] if u == "001.webp"
    ));
    let tag = CheckEvent::OtherTag { tag: String::from("Emphasis"), source: String::from("*a*") };
    assert!(check_event(&tag, true, Lang::ZhHans, true, &mut seen).is_empty());
    assert_eq!(check_event(&tag, true, Lang::ZhHans, false, &mut seen).len(), 1);
}

#[test]
fn check_titles_and_events() {
    let mut seen = CharSet::new();
    let volume = CheckEvent::Heading { level: 1, source: String::from("# 第1话 x") };
    assert!(matches!(
        &check_event(&volume, true, Lang::ZhHans, true, &mut seen)[..],
        [CheckWarning::IrregularVolumeTitle(t)] if t == "第1话 x"
    ));
    let chapter = CheckEvent::Heading { level: 2, source: String::from("## 第一章") };
    assert!(matches!(
        &check_event(&chapter, true, Lang::ZhHant, true, &mut seen)[..],
        [CheckWarning::IrregularChapterTitle(t)] if t == "第一章"
    ));
    let hant = CheckEvent::Heading { level: 2, source: String::from("## 第一話 開始") };
    assert!(check_event(&hant, true, Lang::ZhHant, true, &mut seen).is_empty());
    let intro = CheckEvent::Heading { level: 1, source: String::from("# 簡介") };
    assert!(check_event(&intro, true, Lang::ZhHant, true, &mut seen).is_empty());
    let rule = CheckEvent::OtherEvent { event: String::from("Rule"), source: String::from("---") };
    assert!(matches!(
        &check_event(&rule, true, Lang::ZhHans, false, &mut seen)[..],
        [CheckWarning::UnexpectedEvent { event, content }] if event == "Rule" && content == "---"
    ));
    assert!(check_event(&rule, true, Lang::ZhHans, true, &mut seen).is_empty());
    assert!(check_event(&CheckEvent::Paragraph, true, Lang::ZhHans, false, &mut seen).is_empty());
    assert!(check_event(&CheckEvent::End, true, Lang::ZhHans, false, &mut seen).is_empty());
}

#[test]
fn metadata_language_and_cover() {
    assert!(metadata("zh-Hant", None).lang_is_ok());
    assert!(metadata("zh-Hans", None).lang_is_ok());
    assert!(!metadata("zh-CN", None).lang_is_ok());
    assert!(metadata("zh-Hans", None).cover_image_is_ok(false));
    assert!(metadata("zh-Hans", Some("cover.webp")).cover_image_is_ok(true));
    assert!(!metadata("zh-Hans", Some("cover.webp")).cover_image_is_ok(false));
}

const CHECKED: &str = "---\ntitle: 书\n---\n\n# 第1话 x\n\n## 第1章 开始\n\n好★\n\n![](001.webp)\n\n*a*\n";

#[test]
fn check_of_a_markdown_file() {
    assert_eq!(check_image_urls(CHECKED), vec!["001.webp"]);
    assert!(check_markdown(CHECKED, Lang::ZhHans, false, &vec![]).is_none());
    let found = check_markdown(CHECKED, Lang::ZhHans, false, &vec![false]).unwrap();
    assert!(matches!(&found[0], CheckWarning::IrregularVolumeTitle(t) if t == "第1话 x"));
    assert!(matches!(&found[1], CheckWarning::IrregularChar('★', s) if s == "好★"));
    assert!(matches!(&found[2], CheckWarning::MissingImage(u) if u == "001.webp"));
    assert!(matches!(&found[3], CheckWarning::UnexpectedTag { tag, content } if tag == "Emphasis" && content == "*a*"));
    assert_eq!(found.len(), 4);
    let basic = check_markdown(CHECKED, Lang::ZhHans, true, &vec![true]).unwrap();
    assert_eq!(basic.len(), 1);
}
