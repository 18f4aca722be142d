use novel_cli::cli::WordCountRange;
use novel_cli::novel_info::NovelInfo;
use novel_cli::search::{
    add_new_infos, create_options, find_name, keep_first, same_info, search_is_done, to_tags,
    vec_to_string, SearchError, SearchFilter,
};

fn info(id: u32, name: &str) -> NovelInfo {
    NovelInfo {
        id,
        name: String::from(name),
        author_name: String::from("作者"),
        cover_url: None,
        introduction: None,
        word_count: Some(12345),
        is_vip: Some(false),
        is_finished: None,
        create_time: None,
        update_time: None,
        category: Some(String::from("魔幻")),
        tags: Some(vec![String::from("百合")]),
        category_ids: (Some(1), None),
        tag_ids: vec![Some(7)],
    }
}

fn names(list: &[&str]) -> Vec<String> {
    list.iter().map(|s| s.to_string()).collect()
}

#[test]
fn results_hold_no_repeats() {
    let mut infos = vec![info(1, "甲")];
    add_new_infos(&mut infos, vec![info(2, "乙"), info(1, "甲"), info(2, "乙"), info(1, "甲2")]);
    let ids: Vec<(u32, String)> = infos.iter().map(|i| (i.id, i.name.clone())).collect();
    assert_eq!(
        ids,
        vec![(1, String::from("甲")), (2, String::from("乙")), (1, String::from("甲2"))]
    );
    assert!(same_info(&info(3, "丙"), &info(3, "丙")));
    assert!(!same_info(&info(3, "丙"), &info(4, "丙")));
    assert!(!search_is_done(infos.len(), 10));
    assert!(search_is_done(infos.len(), 3));
    keep_first(&mut infos, 2);
    assert_eq!(infos.len(), 2);
    keep_first(&mut infos, 5);
    assert_eq!(infos.len(), 2);
}

#[test]
fn names_and_tags_are_looked_up() {
    let tags = names(&["百合", "搞笑", "百合", "综漫"]);
    assert_eq!(find_name(&tags, "百合"), Some(0));
    assert_eq!(find_name(&tags, "综漫"), Some(3));
    assert_eq!(find_name(&tags, "同人"), None);
    assert_eq!(vec_to_string(&tags), "百合、搞笑、百合、综漫");
    assert_eq!(vec_to_string(&vec![]), "");
    match to_tags(&tags, &names(&["综漫", "百合"])) {
        Ok(found) => assert_eq!(found, vec![3, 0]),
        Err(_) => panic!("all tags exist"),
    }
    match to_tags(&tags, &names(&["搞笑", "同人", "无"])) {
        Err(SearchError::TagNotFound { name, available }) => {
            assert_eq!(name, "同人");
            assert_eq!(available, "百合、搞笑、百合、综漫");
        }
        _ => panic!("the second tag is missing"),
    }
}

fn filter() -> SearchFilter {
    SearchFilter {
        keyword: Some(String::from("关键")),
        min_word_count: Some(1000000),
        max_word_count: None,
        update_days: Some(7),
        is_finished: Some(false),
        is_vip: None,
        category: Some(String::from("魔幻")),
        tags: names(&["百合"]),
        excluded_tags: names(&["搞笑", "综漫", "同人"]),
    }
}

#[test]
fn search_options() {
    let categories = names(&["都市", "魔幻"]);
    let tags = names(&["百合", "搞笑", "综漫", "同人"]);
    let q = match create_options(&filter(), &categories, &tags) {
        Ok(q) => q,
        Err(_) => panic!("everything exists"),
    };
    assert_eq!(q.keyword.as_deref(), Some("关键"));
    assert_eq!(q.category, Some(1));
    assert_eq!(q.tags, Some(vec![0]));
    assert_eq!(q.excluded_tags, Some(vec![1, 2, 3]));
    assert_eq!(q.update_days, Some(7));
    assert_eq!(q.is_finished, Some(false));
    assert_eq!(q.word_count, Some(WordCountRange::RangeFrom(1000000)));

    let mut f = filter();
    f.category = Some(String::from("科幻"));
    match create_options(&f, &categories, &tags) {
        Err(SearchError::CategoryNotFound { name, available }) => {
            assert_eq!(name, "科幻");
            assert_eq!(available, "都市、魔幻");
        }
        _ => panic!("the category is missing"),
    }

    let mut f = filter();
    f.tags = vec![];
    f.excluded_tags = names(&["无"]);
    match create_options(&f, &categories, &tags) {
        Err(SearchError::TagNotFound { name, .. }) => assert_eq!(name, "无"),
        _ => panic!("the excluded tag is missing"),
    }

    let mut f = filter();
    f.tags = vec![];
    f.excluded_tags = vec![];
    f.category = None;
    let q = match create_options(&f, &categories, &tags) {
        Ok(q) => q,
        Err(_) => panic!("nothing to look up"),
    };
    assert_eq!(q.tags, None);
    assert_eq!(q.excluded_tags, None);
    assert_eq!(q.category, None);
}

#[test]
fn records_differing_in_ids_are_both_kept() {
    let mut other = info(5, "戊");
    other.tag_ids = vec![Some(8)];
    assert!(!same_info(&info(5, "戊"), &other));
    let mut parent = info(5, "戊");
    parent.category_ids = (Some(1), Some(2));
    assert!(!same_info(&info(5, "戊"), &parent));
    let mut infos = vec![info(5, "戊")];
    add_new_infos(&mut infos, vec![other, parent, info(5, "戊")]);
    assert_eq!(infos.len(), 3);
}
