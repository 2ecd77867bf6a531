use translator::hotkey::{parse_hotkey, shortcut_for_hotkey, Hotkey, KeyCode, Modifiers};

fn mods(control: bool, alt: bool, shift: bool, super_key: bool) -> Modifiers {
    Modifiers { control, alt, shift, super_key }
}

#[test]
fn ctrl_alt_c_is_parsed() {
    assert_eq!(
        parse_hotkey("Ctrl+Alt+C"),
        Some(Hotkey { modifiers: mods(true, true, false, false), code: KeyCode::KeyC })
    );
}

#[test]
fn spaces_and_case_are_ignored() {
    assert_eq!(
        parse_hotkey(" ctrl + SHIFT +  f5 "),
        Some(Hotkey { modifiers: mods(true, false, true, false), code: KeyCode::F5 })
    );
}

#[test]
fn modifier_synonyms_are_accepted() {
    assert_eq!(
        parse_hotkey("Cmd+Option+Space"),
        Some(Hotkey { modifiers: mods(false, true, false, true), code: KeyCode::Space })
    );
    assert_eq!(
        parse_hotkey("CommandOrControl+Meta+Up"),
        Some(Hotkey { modifiers: mods(true, false, false, true), code: KeyCode::ArrowUp })
    );
    assert_eq!(
        parse_hotkey("Control+Super+PageDown"),
        Some(Hotkey { modifiers: mods(true, false, false, true), code: KeyCode::PageDown })
    );
}

#[test]
fn every_named_key_is_known() {
    let names = [
        ("F1", KeyCode::F1), ("F2", KeyCode::F2), ("F3", KeyCode::F3), ("F4", KeyCode::F4),
        ("F6", KeyCode::F6), ("F7", KeyCode::F7), ("F8", KeyCode::F8), ("F9", KeyCode::F9),
        ("F10", KeyCode::F10), ("F11", KeyCode::F11), ("F12", KeyCode::F12),
        ("Tab", KeyCode::Tab), ("Escape", KeyCode::Escape), ("Enter", KeyCode::Enter),
        ("Backspace", KeyCode::Backspace), ("Insert", KeyCode::Insert), ("Delete", KeyCode::Delete),
        ("Home", KeyCode::Home), ("End", KeyCode::End), ("PageUp", KeyCode::PageUp),
        ("Left", KeyCode::ArrowLeft), ("Right", KeyCode::ArrowRight), ("Down", KeyCode::ArrowDown),
    ];
    for (name, code) in names {
        assert_eq!(
            parse_hotkey(&format!("Alt+{}", name)),
            Some(Hotkey { modifiers: mods(false, true, false, false), code })
        );
    }
}

#[test]
fn key_names_are_lowercased_by_unicode_rules() {
    assert_eq!(
        parse_hotkey("CTRL+ALT+DELETE"),
        Some(Hotkey { modifiers: mods(true, true, false, false), code: KeyCode::Delete })
    );
    // KELVIN SIGN lowercases to an ASCII 'k': "BAC\u{212A}SPACE" names Backspace.
    assert_eq!(
        parse_hotkey("Shift+BAC\u{212A}SPACE"),
        Some(Hotkey { modifiers: mods(false, false, true, false), code: KeyCode::Backspace })
    );
}

#[test]
fn letters_and_digits_are_keys() {
    assert_eq!(parse_hotkey("a"), Some(Hotkey { modifiers: mods(false, false, false, false), code: KeyCode::KeyA }));
    assert_eq!(parse_hotkey("Shift+z"), Some(Hotkey { modifiers: mods(false, false, true, false), code: KeyCode::KeyZ }));
    assert_eq!(parse_hotkey("Ctrl+7"), Some(Hotkey { modifiers: mods(true, false, false, false), code: KeyCode::Digit7 }));
}

#[test]
fn unknown_modifier_or_key_is_refused() {
    assert_eq!(parse_hotkey("Ctrl+Hyper+A"), None);
    assert_eq!(parse_hotkey("Ctrl+Hyper"), None);
    assert_eq!(parse_hotkey("Ctrl+"), None);
    assert_eq!(parse_hotkey("Ctrl++"), None);
    assert_eq!(parse_hotkey(""), None);
    assert_eq!(parse_hotkey("Ctrl+é"), None);
    assert_eq!(parse_hotkey("Ctrl+!"), None);
    assert_eq!(parse_hotkey("Ctrl+F13"), None);
}

#[test]
fn modifier_order_does_not_matter() {
    assert_eq!(parse_hotkey("Alt+Ctrl+C"), parse_hotkey("Ctrl+Alt+C"));
    assert_eq!(parse_hotkey("Shift+Meta+Alt+F1"), parse_hotkey("Alt+Shift+Meta+F1"));
}

#[test]
fn letter_key_case_does_not_matter() {
    assert_eq!(parse_hotkey("Ctrl+a"), parse_hotkey("Ctrl+A"));
    assert!(parse_hotkey("Ctrl+q").is_some());
}

#[test]
fn repeated_modifier_counts_once() {
    assert_eq!(parse_hotkey("Ctrl+Ctrl+X"), parse_hotkey("Ctrl+X"));
    assert_eq!(parse_hotkey("Ctrl+Control+X"), parse_hotkey("Ctrl+X"));
    assert_eq!(parse_hotkey("Shift+Ctrl+X"), parse_hotkey("Ctrl+Shift+X"));
    assert_eq!(parse_hotkey("Shift+Ctrl+Shift+X"), parse_hotkey("Ctrl+Shift+X"));
}

#[test]
fn whole_description_case_does_not_matter() {
    for s in ["Ctrl+Alt+C", "cmd+Option+PageUp", "SUPER+shift+f11", "Ctrl+Hyper+A", "Alt+Space",
              "Shift+BAC\u{212A}SPACE", "Ctrl+\u{00C9}", "\u{00C4}lt+X"] {
        assert_eq!(parse_hotkey(s), parse_hotkey(&s.to_ascii_lowercase()));
        assert_eq!(parse_hotkey(s), parse_hotkey(&s.to_ascii_uppercase()));
    }
}

#[test]
fn invalid_hotkey_falls_back_to_ctrl_alt_c() {
    let fallback = Hotkey { modifiers: mods(true, true, false, false), code: KeyCode::KeyC };
    assert_eq!(shortcut_for_hotkey("nonsense"), fallback);
    assert_eq!(shortcut_for_hotkey(""), fallback);
    assert_eq!(
        shortcut_for_hotkey("Shift+F2"),
        Hotkey { modifiers: mods(false, false, true, false), code: KeyCode::F2 }
    );
}
