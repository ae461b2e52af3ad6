use ambient_context::capture::{capture_fits, encode_capture};
use ambient_context::context::{get_context, Settings, MAX_AUDIO_CHARS, MAX_SCREEN_CHARS};
use ambient_context::screen::{
    extract_text, get_screen, ocr_from_lines, process_windows, titled_block, WindowContent,
};
use ambient_context::windows::{
    exclusion, get_window_list, Exclusion, HwndName, WLError, WindowProbe,
};

fn window(title: &str, content: &str) -> WindowContent {
    WindowContent { title: title.to_string(), content: content.to_string() }
}

fn probe(hwnd: isize, title: &str) -> WindowProbe {
    WindowProbe {
        hwnd,
        visible: true,
        title: title.to_string(),
        class_name: "Chrome_WidgetWin_1".to_string(),
        client_size: Some((800, 600)),
        process_id: 4321,
    }
}

fn settings(key: &str, screen: bool, audio: bool) -> Settings {
    Settings { groq_api_key: key.to_string(), screen_context: screen, audio_context: audio }
}

#[test]
fn ordinary_window_is_read() {
    assert_eq!(exclusion(&probe(1, "Editor"), 99), None);
}

#[test]
fn hidden_window_is_left_out() {
    let mut p = probe(1, "Editor");
    p.visible = false;
    assert_eq!(exclusion(&p, 99), Some(Exclusion::Hidden));
}

#[test]
fn untitled_window_is_left_out() {
    assert_eq!(exclusion(&probe(1, ""), 99), Some(Exclusion::Untitled));
}

#[test]
fn shell_classes_are_left_out() {
    for class in ["Progman", "TaskManagerWindow", "Windows.UI.Core.CoreWindow"] {
        let mut p = probe(1, "Editor");
        p.class_name = class.to_string();
        assert_eq!(exclusion(&p, 99), Some(Exclusion::ShellClass));
    }
    let mut p = probe(1, "Editor");
    p.class_name = "Progman2".to_string();
    assert_eq!(exclusion(&p, 99), None);
}

#[test]
fn wrapper_classes_are_left_out() {
    let mut p = probe(1, "Editor");
    p.class_name = "HwndWrapper[App;;1234]".to_string();
    assert_eq!(exclusion(&p, 99), Some(Exclusion::WrapperClass));
    p.class_name = "xxHwndWrapper".to_string();
    assert_eq!(exclusion(&p, 99), Some(Exclusion::WrapperClass));
    p.class_name = "HwndWrappe".to_string();
    assert_eq!(exclusion(&p, 99), None);
}

#[test]
fn settings_windows_are_left_out() {
    assert_eq!(exclusion(&probe(1, "Settings"), 99), Some(Exclusion::SettingsTitle));
    assert_eq!(exclusion(&probe(1, "Settings - Display"), 99), None);
    assert_eq!(
        exclusion(&probe(1, "tauri://localhost/settings.html"), 99),
        Some(Exclusion::SettingsPage)
    );
}

#[test]
fn small_or_unmeasured_windows_are_left_out() {
    let mut p = probe(1, "Editor");
    p.client_size = None;
    assert_eq!(exclusion(&p, 99), Some(Exclusion::NoClientArea));
    p.client_size = Some((99, 101));
    assert_eq!(exclusion(&p, 99), Some(Exclusion::TooSmall));
    p.client_size = Some((100, 100));
    assert_eq!(exclusion(&p, 99), None);
    p.client_size = Some((0, 5000));
    assert_eq!(exclusion(&p, 99), Some(Exclusion::TooSmall));
    p.client_size = Some((i32::MAX, i32::MAX));
    assert_eq!(exclusion(&p, 99), None);
}

#[test]
fn own_windows_are_left_out() {
    assert_eq!(exclusion(&probe(1, "Editor"), 4321), Some(Exclusion::OwnProcess));
}

#[test]
fn first_reason_is_reported() {
    let mut p = probe(1, "");
    p.visible = false;
    p.class_name = "Progman".to_string();
    assert_eq!(exclusion(&p, 4321), Some(Exclusion::Hidden));
    p.visible = true;
    assert_eq!(exclusion(&p, 4321), Some(Exclusion::Untitled));
    p.title = "Settings".to_string();
    assert_eq!(exclusion(&p, 4321), Some(Exclusion::ShellClass));
    p.class_name = "Other".to_string();
    p.client_size = Some((1, 1));
    assert_eq!(exclusion(&p, 4321), Some(Exclusion::SettingsTitle));
}

#[test]
fn window_list_keeps_enumeration_order() {
    let mut hidden = probe(2, "Hidden");
    hidden.visible = false;
    let probes = vec![probe(3, "Third"), hidden, probe(1, "First"), probe(7, "Settings")];
    let list = get_window_list(Some(&probes), 99).unwrap();
    let seen: Vec<(isize, String)> =
        list.into_iter().map(|w| (w.hwnd, w.window_name)).collect();
    assert_eq!(seen, vec![(3, "Third".to_string()), (1, "First".to_string())]);
}

#[test]
fn window_list_of_nothing_is_empty() {
    assert!(get_window_list(Some(&Vec::new()), 99).unwrap().is_empty());
}

#[test]
fn failed_enumeration_is_an_error() {
    match get_window_list(None, 99) {
        Err(e) => assert_eq!(e, WLError::EnumWindowsError),
        Ok(_) => panic!("no enumeration, no list"),
    }
}

#[test]
fn recognised_lines_end_with_newlines() {
    let lines = vec!["first line".to_string(), "".to_string(), "third".to_string()];
    assert_eq!(ocr_from_lines(&lines), "first line\n\nthird\n");
    assert_eq!(ocr_from_lines(&Vec::new()), "");
}

#[test]
fn extracted_text_carries_the_title() {
    let info = HwndName { hwnd: 5, window_name: "Notes".to_string() };
    let lines = vec!["a".to_string(), "b".to_string()];
    let content = extract_text(&info, Some(&lines)).unwrap();
    assert_eq!(content.title, "Notes");
    assert_eq!(content.content, "a\nb\n");
    assert!(extract_text(&info, None).is_none());
}

#[test]
fn block_has_title_colon_content_and_blank_line() {
    assert_eq!(titled_block(&window("Notes", "hello")), "Notes:\nhello\n\n");
    assert_eq!(titled_block(&window("", "")), ":\n\n\n");
}

#[test]
fn screen_text_concatenates_blocks() {
    let windows = vec![window("A", "one"), window("B", "two")];
    assert_eq!(get_screen(&windows, 4000), "A:\none\n\nB:\ntwo\n\n");
    assert_eq!(get_screen(&Vec::new(), 4000), "");
}

#[test]
fn screen_text_stops_at_first_block_that_overflows() {
    let w1 = window("W1", "fits");
    let w2 = window("W2", "this one is far too long for what is left");
    let w3 = window("W3", "ok");
    let text = get_screen(&vec![w1, w2, w3], 20);
    assert_eq!(text, "W1:\nfits\n\n");
    assert!(text.chars().count() <= 20);
    assert!(!text.contains("W2"));
    assert!(!text.contains("W3"));
}

#[test]
fn screen_text_takes_a_block_that_fits_exactly() {
    let windows = vec![window("A", "one"), window("B", "two")];
    assert_eq!(get_screen(&windows, 16), "A:\none\n\nB:\ntwo\n\n");
    assert_eq!(get_screen(&windows, 15), "A:\none\n\n");
    assert_eq!(get_screen(&windows, 8), "A:\none\n\n");
    assert_eq!(get_screen(&windows, 7), "");
    assert_eq!(get_screen(&windows, 0), "");
}

#[test]
fn screen_budget_is_in_characters() {
    let windows = vec![window("É", "ñ"), window("B", "x")];
    assert_eq!(get_screen(&windows, 6), "É:\nñ\n\n");
    assert_eq!(get_screen(&windows, 5), "");
}

#[test]
fn failed_window_does_not_affect_the_others() {
    let results = vec![Some(window("A", "one")), None, Some(window("C", "three")), None];
    let kept = process_windows(&results);
    assert_eq!(kept.len(), 2);
    assert_eq!(kept[0].title, "A");
    assert_eq!(kept[0].content, "one");
    assert_eq!(kept[1].title, "C");
    assert_eq!(kept[1].content, "three");
    let without = process_windows(&vec![Some(window("A", "one")), Some(window("C", "three"))]);
    assert_eq!(get_screen(&kept, 100), get_screen(&without, 100));
    assert_eq!(get_screen(&kept, 100), "A:\none\n\nC:\nthree\n\n");
    assert!(process_windows(&vec![None, None]).is_empty());
}

#[test]
fn context_with_both_sources_disabled_is_empty() {
    let context = get_context(settings("key-123", false, false), "screen text", "audio text");
    assert_eq!(context.content, "");
    assert_eq!(context.api_key, "key-123");
}

#[test]
fn context_labels_both_sections() {
    let context = get_context(settings("k", true, true), "A:\none\n\n", " Hello.\n");
    assert_eq!(context.content, "PC CONTEXT\nSCREEN:\nA:\none\n\nAUDIO:\n Hello.\n");
    assert_eq!(context.api_key, "k");
}

#[test]
fn context_omits_disabled_or_empty_sections() {
    assert_eq!(
        get_context(settings("", true, false), "S", "A").content,
        "PC CONTEXT\nSCREEN:\nS"
    );
    assert_eq!(
        get_context(settings("", false, true), "S", "A").content,
        "PC CONTEXT\nAUDIO:\nA"
    );
    assert_eq!(get_context(settings("", true, true), "", "A").content, "PC CONTEXT\nAUDIO:\nA");
    assert_eq!(get_context(settings("", true, true), "S", "").content, "PC CONTEXT\nSCREEN:\nS");
    assert_eq!(get_context(settings("", true, true), "", "").content, "PC CONTEXT\n");
}

#[test]
fn default_settings_enable_both_sources() {
    let defaults = Settings::default();
    assert_eq!(defaults.groq_api_key, "");
    assert!(defaults.screen_context);
    assert!(defaults.audio_context);
    assert_eq!(MAX_SCREEN_CHARS, 4000);
    assert_eq!(MAX_AUDIO_CHARS, 2000);
}

#[test]
fn capture_size_is_four_bytes_per_pixel() {
    assert!(capture_fits(2, 3, 24));
    assert!(capture_fits(2, 3, 25));
    assert!(!capture_fits(2, 3, 23));
    assert!(capture_fits(0, 7, 0));
    assert!(!capture_fits(u32::MAX, u32::MAX, usize::MAX));
}

#[test]
fn short_capture_is_not_encoded() {
    assert!(encode_capture(2, 2, vec![0u8; 15]).is_none());
}

#[test]
fn capture_is_encoded_as_png_without_alpha() {
    let pixels = vec![255, 0, 0, 255, 0, 255, 0, 128, 0, 0, 255, 0, 10, 20, 30, 40];
    let png = encode_capture(2, 2, pixels.clone()).unwrap();
    assert_ne!(png, pixels);
    assert_eq!(&png[..8], &[0x89, b'P', b'N', b'G', 0x0d, 0x0a, 0x1a, 0x0a]);
    let decoded = image::load_from_memory(&png).unwrap();
    assert_eq!(decoded.color(), image::ColorType::Rgb8);
    assert_eq!(decoded.width(), 2);
    assert_eq!(decoded.height(), 2);
    assert_eq!(decoded.into_bytes(), vec![255, 0, 0, 0, 255, 0, 0, 0, 255, 10, 20, 30]);
}

#[test]
fn encoding_is_repeatable() {
    let pixels = vec![1u8; 3 * 5 * 4];
    assert_eq!(encode_capture(3, 5, pixels.clone()), encode_capture(3, 5, pixels));
}

#[test]
fn empty_capture_does_not_panic() {
    let first = encode_capture(0, 0, Vec::new());
    println!("{:?}", first.as_ref().map(|b| b.len()));
    assert_eq!(first, encode_capture(0, 0, Vec::new()));
    assert!(first.is_none());
}
