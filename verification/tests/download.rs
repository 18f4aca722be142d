use std::collections::HashMap;

use novel_cli::download::{
    assemble_novel, chapter_count, chapter_requests, exists_undownloadable, ChapterInfo, VolumeInfo,
};
use novel_cli::novel::Content;

fn info(id: u32, title: &str, can_download: bool) -> ChapterInfo {
    ChapterInfo {
        id,
        title: String::from(title),
        can_download,
        is_valid: true,
        payment_required: !can_download,
        price: if can_download { None } else { Some(10) },
    }
}

fn volumes() -> Vec<VolumeInfo> {
    vec![
        VolumeInfo {
            title: String::from("卷一"),
            chapter_infos: vec![info(1, "一", true), info(2, "二", false), info(3, "三", true)],
        },
        VolumeInfo {
            title: String::from("卷二"),
            chapter_infos: vec![info(4, "四", false)],
        },
        VolumeInfo {
            title: String::from("卷三"),
            chapter_infos: vec![info(5, "五", true), info(1, "重复", true)],
        },
    ]
}

#[test]
fn counts_and_requests_downloadable_chapters() {
    let v = volumes();
    assert_eq!(chapter_count(&v), 4);
    let ids: Vec<(u32, String)> = chapter_requests(&v).into_iter().map(|r| (r.id, r.title)).collect();
    assert_eq!(
        ids,
        vec![
            (1, String::from("一")),
            (3, String::from("三")),
            (5, String::from("五")),
            (1, String::from("重复")),
        ]
    );
    assert!(exists_undownloadable(&v));
    assert!(!exists_undownloadable(&vec![VolumeInfo {
        title: String::from("x"),
        chapter_infos: vec![info(9, "九", true)],
    }]));
    assert_eq!(chapter_count(&vec![]), 0);
}

#[test]
fn assembled_novel_takes_contents_by_id_once() {
    let v = volumes();
    let mut downloaded: HashMap<u32, Vec<Content<u8>>> = HashMap::new();
    downloaded.insert(1, vec![Content::Text(String::from("甲")), Content::Image(7)]);
    downloaded.insert(5, vec![Content::Text(String::from("戊"))]);
    downloaded.insert(42, vec![]);
    let novel = assemble_novel(
        String::from("书"),
        String::from("人"),
        None,
        Some(9u8),
        &v,
        &mut downloaded,
    );
    assert_eq!(novel.name, "书");
    assert_eq!(novel.cover_image, Some(9));
    assert_eq!(novel.volumes.len(), 3);
    assert_eq!(novel.volumes[0].title, "卷一");
    let first = &novel.volumes[0].chapters;
    assert_eq!(first.len(), 2);
    assert_eq!((first[0].id, first[0].title.as_str()), (1, "一"));
    assert!(matches!(&first[0].contents[..], [Content::Text(t), Content::Image(7)] if t == "甲"));
    assert_eq!((first[1].id, first[1].contents.len()), (3, 0));
    assert!(novel.volumes[1].chapters.is_empty());
    let third = &novel.volumes[2].chapters;
    assert!(matches!(&third[0].contents[..], [Content::Text(t)] if t == "戊"));
    assert_eq!((third[1].id, third[1].contents.len()), (1, 0));
    assert_eq!(downloaded.len(), 1);
    assert!(downloaded.contains_key(&42));
}
