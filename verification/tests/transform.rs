use novel_cli::convert::{Convert, ConvertError, OpenccMode};
use novel_cli::markdown::{metadata_text, HeadEvent, Metadata, MetadataBlockError};
use novel_cli::text::split_on;
use novel_cli::transform::{
    convert_metadata, metadata_and_images, output_events, transform_event, transform_markdown,
    transformed_markdown, MdEvent, OutputEvent, TransformError, TransformOutput, TransformState,
};

fn no_opencc(_mode: OpenccMode, _text: &String) -> Result<String, ConvertError> {
    Err(ConvertError {
        message: String::from("not needed"),
    })
}

#[test]
fn split_keeps_empty_pieces() {
    assert_eq!(split_on("a\n\nb", '\n'), vec!["a", "", "b"]);
    assert_eq!(split_on("", '\n'), vec![""]);
    assert_eq!(split_on("\n", '\n'), vec!["", ""]);
}

#[test]
fn metadata_is_converted_line_by_line() {
    let mut m = Metadata {
        title: String::from(" 标题 "),
        author: String::from("作者"),
        lang: String::from("zh-Hant"),
        description: Some(String::from(" 一 \n\n二")),
        cover_image: Some(String::from("cover.png")),
    };
    convert_metadata(&mut m, &[Convert::CUSTOM], &no_opencc).unwrap();
    assert_eq!(m.title, "标题");
    assert_eq!(m.lang, "zh-Hans");
    assert_eq!(m.description.as_deref(), Some("一\n\n二"));
    assert_eq!(m.cover_image.as_deref(), Some("cover.png"));
}

#[test]
fn events_are_converted_and_images_numbered() {
    let converts = [Convert::CUSTOM];
    let mut state = TransformState::new();
    let out = transform_event(&mut state, &MdEvent::Text(String::from("第一章 “你好”")), &converts, &no_opencc);
    assert!(matches!(out, Ok(TransformOutput::Text(t)) if t == "第一章“你好”"));
    transform_event(&mut state, &MdEvent::HeadingStart, &converts, &no_opencc).unwrap();
    assert!(state.in_heading);
    let out = transform_event(&mut state, &MdEvent::Text(String::from("第一章 “你好”")), &converts, &no_opencc);
    assert!(matches!(out, Ok(TransformOutput::Text(t)) if t == "第一章 “你好”"));
    transform_event(&mut state, &MdEvent::HeadingEnd, &converts, &no_opencc).unwrap();
    assert!(!state.in_heading);
    let out = transform_event(&mut state, &MdEvent::Image(String::from("a.png")), &converts, &no_opencc);
    assert!(matches!(out, Ok(TransformOutput::Image { stem }) if stem == "001"));
    let out = transform_event(&mut state, &MdEvent::Image(String::from("a.png")), &converts, &no_opencc);
    assert!(matches!(out, Ok(TransformOutput::Image { stem }) if stem == "002"));
    assert_eq!(state.image_index, 3);
    assert!(matches!(
        transform_event(&mut state, &MdEvent::Other, &converts, &no_opencc),
        Ok(TransformOutput::Keep)
    ));
}

#[test]
fn metadata_block_must_lead() {
    let text = String::from("title: 书\n");
    let good = vec![HeadEvent::MetadataStart, HeadEvent::Text(text.clone()), HeadEvent::MetadataEnd];
    assert_eq!(metadata_text(&good), Ok(text.clone()));
    assert_eq!(metadata_text(&vec![]), Err(MetadataBlockError::NoStart));
    assert_eq!(
        metadata_text(&vec![HeadEvent::Other, HeadEvent::Text(text.clone())]),
        Err(MetadataBlockError::NoStart)
    );
    assert_eq!(
        metadata_text(&vec![HeadEvent::MetadataStart, HeadEvent::MetadataEnd]),
        Err(MetadataBlockError::NoText)
    );
    assert_eq!(
        metadata_text(&vec![HeadEvent::MetadataStart, HeadEvent::Text(text)]),
        Err(MetadataBlockError::NoEnd)
    );
}

#[test]
fn metadata_block_is_framed() {
    use_metadata_block();
}

fn use_metadata_block() {
    let block = novel_cli::markdown::metadata_block("title: x\n").unwrap();
    assert_eq!(block, "---\ntitle: x\n---\n");
}

const BOOK: &str = "---\ntitle: 书\nauthor: 作者\n---\n\n# 第一章 “你好”\n\n![](a.png)\n\n第一章 “你好”\n\n![](b.webp)\n";

#[test]
fn markdown_metadata_and_images_are_read() {
    let (yaml, images) = metadata_and_images(BOOK).unwrap();
    assert_eq!(yaml.trim_end(), "title: 书\nauthor: 作者");
    assert_eq!(images, vec!["a.png", "b.webp"]);
}

#[test]
fn markdown_without_metadata_is_refused() {
    assert!(matches!(metadata_and_images("# 第一章\n"), Err(MetadataBlockError::NoStart)));
    assert!(matches!(
        transform_markdown("# 第一章\n", &[Convert::CUSTOM], &no_opencc),
        Err(TransformError::Metadata(MetadataBlockError::NoStart))
    ));
}

#[test]
fn markdown_is_transformed_event_by_event() {
    let (yaml, outs) = transform_markdown(BOOK, &[Convert::CUSTOM], &no_opencc).unwrap();
    assert_eq!(yaml.trim_end(), "title: 书\nauthor: 作者");
    let texts: Vec<String> = outs
        .iter()
        .filter_map(|o| match o {
            TransformOutput::Text(t) => Some(t.clone()),
            _ => None,
        })
        .collect();
    assert_eq!(texts, vec!["第一章 “你好”", "第一章“你好”"]);
    let stems: Vec<String> = outs
        .iter()
        .filter_map(|o| match o {
            TransformOutput::Image { stem } => Some(stem.clone()),
            _ => None,
        })
        .collect();
    assert_eq!(stems, vec!["001", "002"]);
}

#[test]
fn markdown_opencc_error_is_passed_on() {
    let r = transform_markdown(BOOK, &[Convert::JP2T2S], &no_opencc);
    assert!(matches!(r, Err(TransformError::Convert(e)) if e.message == "not needed"));
}

#[test]
fn converted_markdown_links_the_new_image_files() {
    let (_, outs) = transform_markdown(BOOK, &[Convert::CUSTOM], &no_opencc).unwrap();
    let files = vec![String::from("001.webp"), String::from("002.webp")];
    let events = output_events(&outs, &files);
    assert_eq!(events.len(), outs.len());
    let links: Vec<String> = events
        .iter()
        .filter_map(|e| match e {
            OutputEvent::ImageLink(l) => Some(l.clone()),
            _ => None,
        })
        .collect();
    assert_eq!(links, files);
    let block = "---\ntitle: 书\n---\n";
    let text = transformed_markdown(BOOK, block, &events).unwrap();
    assert!(text.starts_with("---\ntitle: 书\n---\n\n"));
    assert!(text.ends_with('\n'));
    assert!(text.contains("# 第一章 “你好”"));
    assert!(text.contains("![](001.webp)"));
    assert!(text.contains("第一章“你好”"));
    assert!(text.contains("![](002.webp)"));
    assert!(!text.contains("a.png"));
}
