use novel_cli::convert::{Convert, ConvertError, OpenccMode};
use novel_cli::novel::{convert, Chapter, Content, Novel, Volume};

fn no_opencc(_mode: OpenccMode, _text: &String) -> Result<String, ConvertError> {
    Err(ConvertError {
        message: String::from("not needed"),
    })
}

fn upper_opencc(_mode: OpenccMode, text: &String) -> Result<String, ConvertError> {
    Ok(text.replace('後', "后"))
}

fn novel() -> Novel<u8> {
    Novel {
        name: String::from(" 名 "),
        author_name: String::from("作者"),
        introduction: Some(vec![String::from("介绍 ,一")]),
        cover_image: Some(1),
        volumes: vec![Volume {
            title: String::from("第一卷  开始"),
            chapters: vec![Chapter {
                id: 7,
                title: String::from("第一章 “你好”"),
                contents: vec![Content::Text(String::from("之後 ?")), Content::Image(2)],
            }],
        }],
    }
}

#[test]
fn novel_conversion_keeps_shape() {
    let mut n = novel();
    convert(&mut n, &[Convert::T2S, Convert::CUSTOM], &upper_opencc).unwrap();
    assert_eq!(n.name, "名");
    assert_eq!(n.introduction, Some(vec![String::from("介绍，一")]));
    assert_eq!(n.cover_image, Some(1));
    assert_eq!(n.volumes[0].title, "第一卷  开始");
    let c = &n.volumes[0].chapters[0];
    assert_eq!(c.id, 7);
    assert_eq!(c.title, "第一章 “你好”");
    assert!(matches!(&c.contents[..], [Content::Text(t), Content::Image(2)] if t == "之后？"));
}

#[test]
fn no_conversion_leaves_novel_alone() {
    let mut n = novel();
    convert(&mut n, &[], &no_opencc).unwrap();
    assert_eq!(n.name, " 名 ");
    assert_eq!(n.volumes[0].title, "第一卷  开始");
}

#[test]
fn opencc_failure_stops_conversion() {
    let mut n = novel();
    assert!(convert(&mut n, &[Convert::S2T], &no_opencc).is_err());
}

fn failing_on_paragraph(_mode: OpenccMode, text: &String) -> Result<String, ConvertError> {
    if text.contains('後') {
        Err(ConvertError {
            message: String::from("bad paragraph"),
        })
    } else {
        Ok(text.clone())
    }
}

#[test]
fn novel_conversion_passes_on_the_opencc_error() {
    let mut n = novel();
    let r = convert(&mut n, &[Convert::T2S], &failing_on_paragraph);
    assert_eq!(r, Err(ConvertError { message: String::from("bad paragraph") }));
    let mut n = novel();
    let r = convert(&mut n, &[Convert::T2S], &no_opencc);
    assert_eq!(r, Err(ConvertError { message: String::from("not needed") }));
}
