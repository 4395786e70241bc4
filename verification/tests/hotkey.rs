use focus_capture::hotkey::{parse, MOD_ALT, MOD_CTRL, MOD_SHIFT, MOD_WIN};

#[test]
fn parses_keyboard_combos() {
    let s = parse("ctrl+shift+f8").unwrap();
    assert_eq!(s.mods, MOD_CTRL | MOD_SHIFT);
    assert_eq!(s.vk, 0x77); // VK_F8
}

#[test]
fn key_names_map_to_vk() {
    assert!(parse("a").is_err()); // bare letter rejected
    assert_eq!(parse("ctrl+a").unwrap().vk, 0x41);
    assert_eq!(parse("ctrl+9").unwrap().vk, 0x39);
    assert_eq!(parse("f13").unwrap().vk, 0x7C);
    assert_eq!(parse("ctrl+up").unwrap().vk, 0x26);
    assert!(parse("ctrl+nope").is_err());
    assert!(parse("ctrl").is_err()); // no main key
}

#[test]
fn rejects_duplicate_main_keys() {
    assert!(parse("ctrl+a+b").is_err());
}

#[test]
fn mouse_tokens_get_actionable_error() {
    let e = parse("ctrl+mouse4").unwrap_err();
    assert!(e.contains("鼠标侧键暂不支持"), "{e}");
    assert!(parse("mouse5").unwrap_err().contains("宿主"));
}

#[test]
fn every_named_key_has_its_code() {
    let table: Vec<(&str, u16)> = vec![
        ("space", 0x20),
        ("tab", 0x09),
        ("enter", 0x0D),
        ("return", 0x0D),
        ("backspace", 0x08),
        ("escape", 0x1B),
        ("esc", 0x1B),
        ("pause", 0x13),
        ("insert", 0x2D),
        ("delete", 0x2E),
        ("home", 0x24),
        ("end", 0x23),
        ("pageup", 0x21),
        ("pagedown", 0x22),
        ("up", 0x26),
        ("left", 0x25),
        ("down", 0x28),
        ("right", 0x27),
        ("minus", 0xBD),
        ("equal", 0xBB),
        ("equals", 0xBB),
        ("bracketleft", 0xDB),
        ("leftbracket", 0xDB),
        ("bracketright", 0xDD),
        ("rightbracket", 0xDD),
        ("backslash", 0xDC),
        ("semicolon", 0xBA),
        ("quote", 0xDE),
        ("apostrophe", 0xDE),
        ("comma", 0xBC),
        ("period", 0xBE),
        ("dot", 0xBE),
        ("slash", 0xBF),
        ("backquote", 0xC0),
        ("grave", 0xC0),
    ];
    for (name, vk) in table {
        let s = parse(name).unwrap();
        assert_eq!((s.mods, s.vk), (0, vk), "{name}");
    }
    for n in 1..=24u16 {
        assert_eq!(parse(&format!("f{n}")).unwrap().vk, 0x70 + n - 1);
    }
    for c in 'a'..='z' {
        assert_eq!(parse(&format!("alt+{c}")).unwrap().vk, 0x41 + (c as u16 - 'a' as u16));
    }
    for c in '0'..='9' {
        assert_eq!(parse(&format!("alt+{c}")).unwrap().vk, 0x30 + (c as u16 - '0' as u16));
    }
}

#[test]
fn modifier_names_are_synonyms() {
    for (name, bit) in [
        ("ctrl", MOD_CTRL),
        ("control", MOD_CTRL),
        ("alt", MOD_ALT),
        ("option", MOD_ALT),
        ("shift", MOD_SHIFT),
        ("win", MOD_WIN),
        ("super", MOD_WIN),
        ("meta", MOD_WIN),
        ("cmd", MOD_WIN),
        ("command", MOD_WIN),
    ] {
        assert_eq!(parse(&format!("{name}+x")).unwrap().mods, bit, "{name}");
    }
}

#[test]
fn case_order_and_blanks_do_not_matter() {
    let want = parse("ctrl+shift+f8").unwrap();
    assert_eq!(parse("F8+Shift+CTRL").unwrap(), want);
    assert_eq!(parse(" ctrl + \u{3000}shift+\tf8 ").unwrap(), want);
    assert_eq!(parse("ctrl++shift+f8+").unwrap(), want);
    assert_eq!(parse("+ctrl+ +shift+f8").unwrap(), want);
    // A modifier may be repeated, by another name too.
    assert_eq!(parse("ctrl+shift+f8+control+Shift").unwrap(), want);
    assert!(parse("ctrl+ctrl").is_err());
    // White space inside a token counts.
    assert!(parse("ct rl+f8").is_err());
}

#[test]
fn each_refusal_has_its_text() {
    assert_eq!(
        parse("mouse4").unwrap_err(),
        "鼠标侧键暂不支持：宿主 register_hotkey 仅支持键盘（鼠标监听计划由宿主 API 提供）"
    );
    assert_eq!(parse("ctrl+a+B").unwrap_err(), "快捷键只能有一个主键（多余 token: b）");
    assert_eq!(parse("ctrl+Nope").unwrap_err(), "无法识别的键名: nope");
    assert_eq!(parse("ctrl+shift").unwrap_err(), "快捷键缺少主键（如 f8、a、space）");
    assert_eq!(parse("").unwrap_err(), "快捷键缺少主键（如 f8、a、space）");
    assert_eq!(
        parse("7").unwrap_err(),
        "字母/数字主键必须搭配至少一个修饰键（ctrl/alt/shift/win）"
    );
}

#[test]
fn function_keys_end_at_24() {
    assert_eq!(parse("f25").unwrap_err(), "无法识别的键名: f25");
    assert_eq!(parse("f0").unwrap_err(), "无法识别的键名: f0");
    // A numeral may have leading zeros.
    assert_eq!(parse("f08").unwrap().vk, 0x77);
    assert!(parse("f").is_err());
    assert!(parse("f99999999999999999999").is_err());
}
