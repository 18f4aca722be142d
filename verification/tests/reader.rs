use novel_cli::convert::{Convert, ConvertError, OpenccMode};
use novel_cli::download::{ChapterInfo, VolumeInfo};
use novel_cli::reader::{
    chapter_content, chapter_list, find_chapter_info, handle_mouse_event, record_purchase,
    select_view, subscription_popup, Area, ChapterView, ContentInfo, Key, KeyAction, KeyInput,
    MouseAction, MouseKind,
    ReaderState,
};

fn no_opencc(_mode: OpenccMode, _text: &String) -> Result<String, ConvertError> {
    Err(ConvertError {
        message: String::from("not needed"),
    })
}

fn key(key: Key, control: bool, shift: bool) -> KeyInput {
    KeyInput { key, control, shift }
}

#[test]
fn keys_resize_within_bounds() {
    let mut s = ReaderState::new();
    assert_eq!(s.percentage, 30);
    let right = key(Key::Right, false, true);
    let left = key(Key::Left, false, true);
    assert_eq!(s.handle_key_event(right), KeyAction::Resized(true));
    assert_eq!(s.percentage, 35);
    assert_eq!(s.handle_key_event(left), KeyAction::Resized(true));
    assert_eq!(s.percentage, 30);
    for _ in 0..10 {
        s.handle_key_event(right);
    }
    assert_eq!(s.percentage, 50);
    assert_eq!(s.handle_key_event(right), KeyAction::Resized(false));
    for _ in 0..10 {
        s.handle_key_event(left);
    }
    assert_eq!(s.percentage, 20);
    assert_eq!(s.handle_key_event(left), KeyAction::Resized(false));
    assert_eq!(s.percentage, 20);
}

#[test]
fn keys_move_scroll_and_leave() {
    let mut s = ReaderState::new();
    assert_eq!(s.handle_key_event(key(Key::Down, false, false)), KeyAction::NextChapter);
    assert_eq!(s.handle_key_event(key(Key::Down, false, true)), KeyAction::ScrollContentDown);
    assert_eq!(s.handle_key_event(key(Key::Up, false, false)), KeyAction::PreviousChapter);
    assert_eq!(s.handle_key_event(key(Key::Right, false, false)), KeyAction::OpenVolume);
    assert_eq!(s.handle_key_event(key(Key::Char('y'), false, false)), KeyAction::Ignore);
    s.show_subscription = true;
    assert_eq!(s.handle_key_event(key(Key::Char('y'), false, false)), KeyAction::BuyChapter);
    s.subscription_done();
    assert!(!s.show_subscription);
    assert_eq!(s.handle_key_event(key(Key::Char('c'), false, false)), KeyAction::Ignore);
    assert!(!s.exit);
    assert_eq!(s.handle_key_event(key(Key::Char('c'), true, false)), KeyAction::Exit);
    assert!(s.exit);
    let mut s = ReaderState::new();
    assert_eq!(s.handle_key_event(key(Key::Esc, false, false)), KeyAction::Exit);
    assert!(s.exit);
}

#[test]
fn mouse_scrolls_the_pane_under_the_pointer() {
    let list = Area { x: 0, y: 0, width: 30, height: 20 };
    let content = Area { x: 30, y: 0, width: 70, height: 20 };
    assert_eq!(
        handle_mouse_event(MouseKind::ScrollDown, 5, 5, list, content),
        MouseAction::ScrollTreeDown
    );
    assert_eq!(
        handle_mouse_event(MouseKind::ScrollUp, 30, 19, list, content),
        MouseAction::ScrollContentUp
    );
    assert_eq!(
        handle_mouse_event(MouseKind::ScrollUp, 30, 20, list, content),
        MouseAction::Ignore
    );
    assert_eq!(
        handle_mouse_event(MouseKind::LeftClick, 99, 99, list, content),
        MouseAction::ClickTree
    );
}

fn chapter(id: u32, title: &str, is_valid: bool, payment_required: bool) -> ChapterInfo {
    ChapterInfo {
        id,
        title: String::from(title),
        can_download: is_valid && !payment_required,
        is_valid,
        payment_required,
        price: if payment_required { Some(12) } else { None },
    }
}

fn volumes() -> Vec<VolumeInfo> {
    vec![
        VolumeInfo {
            title: String::from(" 卷一 "),
            chapter_infos: vec![chapter(1, "序", true, false), chapter(2, "坏", false, false)],
        },
        VolumeInfo {
            title: String::from("无效"),
            chapter_infos: vec![chapter(3, "x", false, false)],
        },
        VolumeInfo {
            title: String::from("卷三"),
            chapter_infos: vec![chapter(4, "付费", true, true), chapter(1, "同号", true, false)],
        },
    ]
}

#[test]
fn chapter_list_shows_valid_chapters() {
    let items = match chapter_list(&volumes(), &[Convert::CUSTOM], &no_opencc) {
        Ok(items) => items,
        Err(_) => panic!("no OpenCC step"),
    };
    assert_eq!(items.len(), 2);
    assert_eq!((items[0].index, items[0].title.as_str()), (0, "卷一"));
    assert_eq!(items[0].chapters.len(), 1);
    assert_eq!((items[0].chapters[0].id, items[0].chapters[0].title.as_str()), (1, "序"));
    assert_eq!(items[1].index, 2);
    assert_eq!(items[1].chapters[0].title, "【未订阅】付费");
    assert_eq!(items[1].chapters[1].title, "同号");
}

#[test]
fn chapters_are_found_by_id_and_bought() {
    let mut v = volumes();
    assert_eq!(find_chapter_info(&v, 1), Some((0, 0)));
    assert_eq!(find_chapter_info(&v, 4), Some((2, 0)));
    assert_eq!(find_chapter_info(&v, 99), None);
    let left = record_purchase(&mut v, 2, 0, 100);
    assert_eq!(left, 88);
    assert!(!v[2].chapter_infos[0].payment_required);
    assert_eq!(v[2].chapter_infos[0].price, Some(12));
}

#[test]
fn popup_and_content_text() {
    let (title, text) = match subscription_popup(12, 345, &[], &no_opencc) {
        Ok(p) => p,
        Err(_) => panic!("no conversion"),
    };
    assert_eq!(title, "订阅章节");
    assert_eq!(text, "订阅本章：12，账户余额：345\n输入 y 订阅");
    let content = vec![
        ContentInfo::Text(String::from(" 第一段 ")),
        ContentInfo::Image(String::from("https://example.com/1.png")),
    ];
    match chapter_content(&content, &[Convert::CUSTOM], &no_opencc) {
        Ok(t) => assert_eq!(t, "第一段\n\nhttps://example.com/1.png\n\n"),
        Err(_) => panic!("no OpenCC step"),
    }
}

#[test]
fn selection_decides_the_text_pane() {
    use_selection();
}

fn use_selection() {
    let v = volumes();
    let mut s = ReaderState::new();
    assert_eq!(select_view(&mut s, &v, &vec![0]), ChapterView::Nothing);
    assert!(!s.show_subscription);
    assert_eq!(select_view(&mut s, &v, &vec![2, 4]), ChapterView::Locked(2, 0));
    assert!(s.show_subscription);
    assert_eq!(select_view(&mut s, &v, &vec![0, 1]), ChapterView::Open(0, 0));
    assert!(!s.show_subscription);
    assert_eq!(select_view(&mut s, &v, &vec![0, 77]), ChapterView::Nothing);
}
