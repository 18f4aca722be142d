use novel_cli::convert::{
    convert_str, custom_convert, lang, opencc_mode, Convert, ConvertError, Lang, OpenccMode,
};

/// A stand-in for OpenCC's `jp2t` + `tw2s` chain on the texts of these tests:
/// it changes the characters that the chain changes in them.
fn opencc_stub(mode: OpenccMode, text: &String) -> Result<String, ConvertError> {
    assert_eq!(mode, OpenccMode::Jp2tTw2s);
    Ok(text
        .chars()
        .map(|c| match c {
            '裝' => '装',
            '後' => '后',
            '著' => '着',
            other => other,
        })
        .collect())
}

fn failing_opencc(_mode: OpenccMode, _text: &String) -> Result<String, ConvertError> {
    Err(ConvertError {
        message: String::from("no dictionary"),
    })
}

fn conv(text: &str, config: &[Convert], in_heading: bool) -> Result<String, ConvertError> {
    convert_str(&text.to_string(), config, in_heading, &opencc_stub)
}

#[test]
fn convert() -> Result<(), ConvertError> {
    let config = vec![Convert::JP2T2S, Convert::CUSTOM];

    assert_eq!(conv("幺", &config, false)?, "幺");
    assert_eq!(conv("妳", &config, false)?, "你");
    assert_eq!(conv("Ｑ０", &config, false)?, "Q0");
    assert_eq!(conv("“安装后”", &config, false)?, "“安装后”");
    assert_eq!(conv("&amp;", &config, false)?, "&");
    assert_eq!(conv("安裝後?", &config, false)?, "安装后？");
    assert_eq!(conv("安　装", &config, false)?, "安 装");
    assert_eq!(conv("你\n好", &config, false)?, "你好");
    assert_eq!(conv("08:00", &config, false)?, "08:00");
    assert_eq!(conv("接著", &config, false)?, "接着");
    assert_eq!(conv("第一章 “你好”", &config, false)?, "第一章“你好”");
    assert_eq!(conv("第一章 “你好”", &config, true)?, "第一章 “你好”");

    Ok(())
}

#[test]
fn no_conversion_keeps_text() {
    let text = String::from("  原样\u{200B} 文本 ");
    assert_eq!(convert_str(&text, &[], false, &failing_opencc), Ok(text.clone()));
}

#[test]
fn custom_alone_needs_no_opencc() {
    let config = [Convert::CUSTOM];
    assert_eq!(
        convert_str(&String::from(" 你好 ,世界 "), &config, false, &failing_opencc),
        Ok(String::from("你好，世界"))
    );
    assert_eq!(
        convert_str(&String::from("时间 12:30:00"), &config, false, &failing_opencc),
        Ok(String::from("时间 12:30:00"))
    );
    assert_eq!(
        convert_str(&String::from("比分:3"), &config, false, &failing_opencc),
        Ok(String::from("比分：3"))
    );
}

#[test]
fn opencc_error_is_reported() {
    let config = [Convert::T2S];
    assert_eq!(
        convert_str(&String::from("字"), &config, false, &failing_opencc),
        Err(ConvertError {
            message: String::from("no dictionary")
        })
    );
}

#[test]
fn custom_drops_invisible_and_collapses_spaces() {
    let r: String = custom_convert("a\u{200B}b\u{FEFF}\t c", false).into_iter().collect();
    assert_eq!(r, "ab c");
    let r: String = custom_convert("", false).into_iter().collect();
    assert_eq!(r, "");
}

#[test]
fn lang_and_opencc_mode_follow_the_conversions() {
    assert_eq!(lang(&[Convert::S2T]), Lang::ZhHant);
    assert_eq!(lang(&[Convert::CUSTOM, Convert::S2T]), Lang::ZhHant);
    assert_eq!(lang(&[Convert::T2S]), Lang::ZhHans);
    assert_eq!(lang(&[]), Lang::ZhHans);
    assert_eq!(opencc_mode(&[Convert::JP2T2S, Convert::T2S]), Some(OpenccMode::Jp2tTw2s));
    assert_eq!(opencc_mode(&[Convert::T2S]), Some(OpenccMode::Tw2s));
    assert_eq!(opencc_mode(&[Convert::S2T]), Some(OpenccMode::S2t));
    assert_eq!(opencc_mode(&[Convert::CUSTOM]), None);
}
