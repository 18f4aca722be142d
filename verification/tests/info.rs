use novel_cli::convert::{Convert, ConvertError, OpenccMode};
use novel_cli::novel_info::{novel_info_lines, novel_info_table};
use novel_cli::cli::{
    calc_scale, check_skip_login_flag, is_iterm_supported, language_tag, source_name_string,
    word_count_range, Source, WordCountRange,
};
use novel_cli::novel_info::{
    field_label_string, field_text_string, info_columns, novel_info_fields, value_is_converted,
    InfoField, NovelInfo,
};

fn info() -> NovelInfo {
    NovelInfo {
        id: 548678,
        name: String::from("书"),
        author_name: String::from("作者"),
        cover_url: None,
        introduction: Some(vec![String::from("一"), String::from("二")]),
        word_count: Some(1234567),
        is_vip: Some(true),
        is_finished: Some(false),
        create_time: None,
        update_time: Some(String::from("2024-01-01")),
        category: None,
        tags: Some(vec![String::from("百合"), String::from("日常")]),
        category_ids: (None, None),
        tag_ids: vec![Some(1), None],
    }
}

#[test]
fn fields_of_a_novel() {
    let i = info();
    assert_eq!(
        novel_info_fields(&i),
        vec![
            InfoField::Name,
            InfoField::Author,
            InfoField::Tags,
            InfoField::WordCount,
            InfoField::IsFinished,
            InfoField::UpdateTime,
            InfoField::Introduction
        ]
    );
    assert_eq!(field_text_string(&i, 3, InfoField::Index), "3");
    assert_eq!(field_text_string(&i, 3, InfoField::Id), "548678");
    assert_eq!(field_text_string(&i, 3, InfoField::WordCount), "123万");
    assert_eq!(field_text_string(&i, 3, InfoField::IsFinished), "未完结");
    assert_eq!(field_text_string(&i, 3, InfoField::Tags), "百合、日常");
    assert_eq!(field_text_string(&i, 3, InfoField::Introduction), "一\n二");
    assert_eq!(field_text_string(&i, 3, InfoField::Category), "");
    assert_eq!(field_label_string(InfoField::UpdateTime), "更新时间");
    assert!(!value_is_converted(InfoField::Id));
    assert!(value_is_converted(InfoField::Name));
    let mut small = info();
    small.word_count = Some(9999);
    assert_eq!(field_text_string(&small, 1, InfoField::WordCount), "9999");
}

#[test]
fn table_columns_follow_the_novels() {
    let mut other = info();
    other.category = Some(String::from("魔幻"));
    other.tags = None;
    assert_eq!(
        info_columns(&vec![info(), other]),
        vec![
            InfoField::Index,
            InfoField::Id,
            InfoField::Name,
            InfoField::Author,
            InfoField::Category,
            InfoField::Tags,
            InfoField::WordCount,
            InfoField::IsFinished,
            InfoField::UpdateTime
        ]
    );
}

#[test]
fn command_line_rules() {
    assert_eq!(source_name_string(Source::Ciyuanji), "ciyuanji");
    assert!(check_skip_login_flag(Source::Sfacg, true).is_ok());
    assert!(check_skip_login_flag(Source::Ciweimao, false).is_ok());
    assert_eq!(check_skip_login_flag(Source::Ciweimao, true).unwrap_err().source, Source::Ciweimao);
    assert_eq!(calc_scale(1920, 1080), 2);
    assert_eq!(calc_scale(1280, 1152), 3);
    assert_eq!(calc_scale(5120, 2880), 2);
    assert_eq!(calc_scale(100, 100), 4);
    assert_eq!(calc_scale(960, 540), 4);
    assert_eq!(word_count_range(Some(1), None), Some(WordCountRange::RangeFrom(1)));
    assert_eq!(word_count_range(None, Some(2)), Some(WordCountRange::RangeTo(2)));
    assert_eq!(word_count_range(Some(1), Some(2)), Some(WordCountRange::Range(1, 2)));
    assert_eq!(word_count_range(None, None), None);
}

#[test]
fn info_lines_and_table_are_converted() {
    let mut i = info();
    i.name = String::from(" 书 ");
    let lines = match novel_info_lines(&i, &[Convert::CUSTOM], &no_opencc) {
        Ok(l) => l,
        Err(_) => panic!("no OpenCC step"),
    };
    assert_eq!(lines[0], (String::from("名字"), String::from("书")));
    assert_eq!(lines[1], (String::from("作者"), String::from("作者")));
    assert_eq!(lines[5], (String::from("更新时间"), String::from("2024-01-01")));
    assert_eq!(lines.len(), 7);
    let (header, rows) = match novel_info_table(&vec![i.clone_info(), info()], &[], &no_opencc) {
        Ok(t) => t,
        Err(_) => panic!("no conversion"),
    };
    assert_eq!(header[0], "序号");
    assert_eq!(rows[0][0], "1");
    assert_eq!(rows[1][0], "2");
    assert_eq!(rows[1][1], "548678");
    assert_eq!(rows[0][2], " 书 ");
}

trait CloneInfo {
    fn clone_info(&self) -> NovelInfo;
}

impl CloneInfo for NovelInfo {
    fn clone_info(&self) -> NovelInfo {
        NovelInfo {
            id: self.id,
            name: self.name.clone(),
            author_name: self.author_name.clone(),
            cover_url: self.cover_url.clone(),
            introduction: self.introduction.clone(),
            word_count: self.word_count,
            is_vip: self.is_vip,
            is_finished: self.is_finished,
            create_time: self.create_time.clone(),
            update_time: self.update_time.clone(),
            category: self.category.clone(),
            tags: self.tags.clone(),
            category_ids: self.category_ids,
            tag_ids: self.tag_ids.clone(),
        }
    }
}

fn no_opencc(_m: OpenccMode, _t: &String) -> Result<String, ConvertError> {
    Err(ConvertError {
        message: String::from("unused"),
    })
}

#[test]
fn locale_and_terminal_rules() {
    use_locale_rules();
}

fn use_locale_rules() {
    assert_eq!(language_tag(Some("zh-CN")), "zh-Hans");
    assert_eq!(language_tag(Some("zh-TW")), "zh-Hant");
    assert_eq!(language_tag(Some("zh-HK")), "zh-Hant");
    assert_eq!(language_tag(Some("C")), "en-US");
    assert_eq!(language_tag(Some("fr-FR")), "fr-FR");
    assert_eq!(language_tag(None), "en-US");
    assert!(is_iterm_supported(Some("iTerm.app"), None));
    assert!(is_iterm_supported(None, Some("WezTerm")));
    assert!(is_iterm_supported(Some("xterm"), Some("mintty 3")));
    assert!(!is_iterm_supported(Some("xterm"), None));
    assert!(!is_iterm_supported(None, None));
}
