use novel_cli::unicode::{is_chinese_punctuation, is_cjk, is_english_punctuation, is_punctuation};

#[test]
fn test_is_cjk() {
    assert!(is_cjk('你'));
    assert!(is_cjk('〇'));
    assert!(is_cjk('䀹'));
    assert!(is_cjk('鿃'));
    assert!(is_cjk('\u{9FEB}'));
    assert!(is_cjk('﨧'));
    assert!(is_cjk('𱞈'));

    assert!(!is_cjk('a'));
    assert!(!is_cjk('🍌'));
}

#[test]
fn punctuation_is_chinese_or_english() {
    for c in ['，', '。', '“', '」', ',', '.', '?', '!', 'a', '你', ' ', '1'] {
        assert_eq!(
            is_punctuation(c),
            is_chinese_punctuation(c) || is_english_punctuation(c)
        );
    }
    assert!(is_chinese_punctuation('，'));
    assert!(is_english_punctuation('?'));
    assert!(!is_punctuation('你'));
    assert!(!is_punctuation('a'));
}
