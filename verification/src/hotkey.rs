//! Parsing of hotkey descriptions such as `"Ctrl+Alt+C"` into a key and its modifiers.

use vstd::prelude::*;
use crate::text::{
    ascii_lower, ascii_lower_char, ascii_upper, ascii_upper_char, chars_of, is_ascii_text, is_white_space,
    lower_form, spells, string_of, to_lowercase, trim, trim_chars, trim_end, trim_start,
};

verus! {

/// The modifier keys a hotkey can hold.
#[derive(Clone, Copy, Debug, PartialEq, Eq, Structural)]
pub struct Modifiers {
    pub control: bool,
    pub alt: bool,
    pub shift: bool,
    pub super_key: bool,
}

/// One modifier key.
#[derive(Clone, Copy, Debug, PartialEq, Eq, Structural)]
pub enum ModifierKey {
    Control,
    Alt,
    Shift,
    Super,
}

/// The keys a hotkey can end in.
#[derive(Clone, Copy, Debug, PartialEq, Eq, Structural)]
pub enum KeyCode {
    KeyA, KeyB, KeyC, KeyD, KeyE, KeyF, KeyG, KeyH, KeyI, KeyJ, KeyK, KeyL, KeyM,
    KeyN, KeyO, KeyP, KeyQ, KeyR, KeyS, KeyT, KeyU, KeyV, KeyW, KeyX, KeyY, KeyZ,
    Digit0, Digit1, Digit2, Digit3, Digit4, Digit5, Digit6, Digit7, Digit8, Digit9,
    F1, F2, F3, F4, F5, F6, F7, F8, F9, F10, F11, F12,
    Space, Tab, Escape, Enter, Backspace, Insert, Delete, Home, End, PageUp, PageDown,
    ArrowLeft, ArrowRight, ArrowUp, ArrowDown,
}

/// A key together with the modifiers held with it.
#[derive(Clone, Copy, Debug, PartialEq, Eq, Structural)]
pub struct Hotkey {
    pub modifiers: Modifiers,
    pub code: KeyCode,
}

/// The key a single ASCII character names, letters in either case.
pub open spec fn char_key(c: char) -> Option<KeyCode> {
    match c {
        'A' | 'a' => Some(KeyCode::KeyA),
        'B' | 'b' => Some(KeyCode::KeyB),
        'C' | 'c' => Some(KeyCode::KeyC),
        'D' | 'd' => Some(KeyCode::KeyD),
        'E' | 'e' => Some(KeyCode::KeyE),
        'F' | 'f' => Some(KeyCode::KeyF),
        'G' | 'g' => Some(KeyCode::KeyG),
        'H' | 'h' => Some(KeyCode::KeyH),
        'I' | 'i' => Some(KeyCode::KeyI),
        'J' | 'j' => Some(KeyCode::KeyJ),
        'K' | 'k' => Some(KeyCode::KeyK),
        'L' | 'l' => Some(KeyCode::KeyL),
        'M' | 'm' => Some(KeyCode::KeyM),
        'N' | 'n' => Some(KeyCode::KeyN),
        'O' | 'o' => Some(KeyCode::KeyO),
        'P' | 'p' => Some(KeyCode::KeyP),
        'Q' | 'q' => Some(KeyCode::KeyQ),
        'R' | 'r' => Some(KeyCode::KeyR),
        'S' | 's' => Some(KeyCode::KeyS),
        'T' | 't' => Some(KeyCode::KeyT),
        'U' | 'u' => Some(KeyCode::KeyU),
        'V' | 'v' => Some(KeyCode::KeyV),
        'W' | 'w' => Some(KeyCode::KeyW),
        'X' | 'x' => Some(KeyCode::KeyX),
        'Y' | 'y' => Some(KeyCode::KeyY),
        'Z' | 'z' => Some(KeyCode::KeyZ),
        '0' => Some(KeyCode::Digit0),
        '1' => Some(KeyCode::Digit1),
        '2' => Some(KeyCode::Digit2),
        '3' => Some(KeyCode::Digit3),
        '4' => Some(KeyCode::Digit4),
        '5' => Some(KeyCode::Digit5),
        '6' => Some(KeyCode::Digit6),
        '7' => Some(KeyCode::Digit7),
        '8' => Some(KeyCode::Digit8),
        '9' => Some(KeyCode::Digit9),
        _ => None,
    }
}

/// The letter keys in alphabetical order, `A` to `Z`.
pub open spec fn letter_keys() -> Seq<KeyCode> {
    seq![
        KeyCode::KeyA, KeyCode::KeyB, KeyCode::KeyC, KeyCode::KeyD, KeyCode::KeyE, KeyCode::KeyF,
        KeyCode::KeyG, KeyCode::KeyH, KeyCode::KeyI, KeyCode::KeyJ, KeyCode::KeyK, KeyCode::KeyL,
        KeyCode::KeyM, KeyCode::KeyN, KeyCode::KeyO, KeyCode::KeyP, KeyCode::KeyQ, KeyCode::KeyR,
        KeyCode::KeyS, KeyCode::KeyT, KeyCode::KeyU, KeyCode::KeyV, KeyCode::KeyW, KeyCode::KeyX,
        KeyCode::KeyY, KeyCode::KeyZ,
    ]
}

/// The digit keys in order, `0` to `9`.
pub open spec fn digit_keys() -> Seq<KeyCode> {
    seq![
        KeyCode::Digit0, KeyCode::Digit1, KeyCode::Digit2, KeyCode::Digit3, KeyCode::Digit4,
        KeyCode::Digit5, KeyCode::Digit6, KeyCode::Digit7, KeyCode::Digit8, KeyCode::Digit9,
    ]
}

/// The key a lowercase key name names (function keys, space, navigation keys...).
pub open spec fn named_key(name: Seq<char>) -> Option<KeyCode> {
    if name == "f1"@ { Some(KeyCode::F1) }
    else if name == "f2"@ { Some(KeyCode::F2) }
    else if name == "f3"@ { Some(KeyCode::F3) }
    else if name == "f4"@ { Some(KeyCode::F4) }
    else if name == "f5"@ { Some(KeyCode::F5) }
    else if name == "f6"@ { Some(KeyCode::F6) }
    else if name == "f7"@ { Some(KeyCode::F7) }
    else if name == "f8"@ { Some(KeyCode::F8) }
    else if name == "f9"@ { Some(KeyCode::F9) }
    else if name == "f10"@ { Some(KeyCode::F10) }
    else if name == "f11"@ { Some(KeyCode::F11) }
    else if name == "f12"@ { Some(KeyCode::F12) }
    else if name == "space"@ { Some(KeyCode::Space) }
    else if name == "tab"@ { Some(KeyCode::Tab) }
    else if name == "escape"@ { Some(KeyCode::Escape) }
    else if name == "enter"@ { Some(KeyCode::Enter) }
    else if name == "backspace"@ { Some(KeyCode::Backspace) }
    else if name == "insert"@ { Some(KeyCode::Insert) }
    else if name == "delete"@ { Some(KeyCode::Delete) }
    else if name == "home"@ { Some(KeyCode::Home) }
    else if name == "end"@ { Some(KeyCode::End) }
    else if name == "pageup"@ { Some(KeyCode::PageUp) }
    else if name == "pagedown"@ { Some(KeyCode::PageDown) }
    else if name == "left"@ { Some(KeyCode::ArrowLeft) }
    else if name == "right"@ { Some(KeyCode::ArrowRight) }
    else if name == "up"@ { Some(KeyCode::ArrowUp) }
    else if name == "down"@ { Some(KeyCode::ArrowDown) }
    else { None }
}

/// The modifier a lowercase modifier name names.
pub open spec fn named_modifier(name: Seq<char>) -> Option<ModifierKey> {
    if name == "ctrl"@ || name == "control"@ || name == "commandorcontrol"@ {
        Some(ModifierKey::Control)
    } else if name == "alt"@ || name == "option"@ {
        Some(ModifierKey::Alt)
    } else if name == "shift"@ {
        Some(ModifierKey::Shift)
    } else if name == "super"@ || name == "command"@ || name == "cmd"@ || name == "meta"@ {
        Some(ModifierKey::Super)
    } else {
        None
    }
}

/// Whether a part is one byte long in UTF-8, that is, a single ASCII character.
pub open spec fn is_single_byte(part: Seq<char>) -> bool {
    part.len() == 1 && (part[0] as u32) < 0x80
}

/// The key the last part of a hotkey names: a single ASCII character is read
/// case-insensitively, anything else by its lowercase name.
pub open spec fn part_key(part: Seq<char>) -> Option<KeyCode> {
    if is_single_byte(part) {
        char_key(part[0])
    } else {
        named_key(lower_form(part))
    }
}

/// The modifier a (non-last) part of a hotkey names, by its lowercase name.
pub open spec fn part_modifier(part: Seq<char>) -> Option<ModifierKey> {
    named_modifier(lower_form(part))
}

/// `str::split('+')`: the pieces of `s` between the plus signs, in order.
pub open spec fn split_plus(s: Seq<char>) -> Seq<Seq<char>>
    decreases s.len(),
{
    if s.len() == 0 {
        seq![Seq::<char>::empty()]
    } else {
        let prev = split_plus(s.drop_last());
        if s.last() == '+' {
            prev.push(Seq::<char>::empty())
        } else {
            prev.update(prev.len() - 1, prev.last().push(s.last()))
        }
    }
}

/// The trimmed pieces of a hotkey description.
pub open spec fn hotkey_parts(s: Seq<char>) -> Seq<Seq<char>> {
    split_plus(s).map_values(|p: Seq<char>| trim(p))
}

/// Whether one of the first `k` parts names modifier `m`.
pub open spec fn names_modifier(parts: Seq<Seq<char>>, k: int, m: ModifierKey) -> bool {
    exists|j: int| 0 <= j < k && #[trigger] part_modifier(parts[j]) == Some(m)
}

/// The modifiers that the first `k` parts name.
pub open spec fn modifiers_named(parts: Seq<Seq<char>>, k: int) -> Modifiers {
    Modifiers {
        control: names_modifier(parts, k, ModifierKey::Control),
        alt: names_modifier(parts, k, ModifierKey::Alt),
        shift: names_modifier(parts, k, ModifierKey::Shift),
        super_key: names_modifier(parts, k, ModifierKey::Super),
    }
}

/// The hotkey a list of parts describes: every part but the last must name a
/// modifier, and the last must name a key.
pub open spec fn hotkey_of_parts(parts: Seq<Seq<char>>) -> Option<Hotkey> {
    let n = parts.len() as int;
    if n == 0 {
        None
    } else if exists|j: int| 0 <= j < n - 1 && (#[trigger] part_modifier(parts[j])) is None {
        None
    } else {
        match part_key(parts[n - 1]) {
            Some(code) => Some(Hotkey { modifiers: modifiers_named(parts, n - 1), code }),
            None => None,
        }
    }
}

/// The hotkey a description such as `"Ctrl+Shift+F5"` describes, if any.
pub open spec fn parse_hotkey_spec(s: Seq<char>) -> Option<Hotkey> {
    hotkey_of_parts(hotkey_parts(s))
}

/// The hotkey used when the configured one cannot be read: Ctrl+Alt+C.
pub open spec fn default_hotkey() -> Hotkey {
    Hotkey {
        modifiers: Modifiers { control: true, alt: true, shift: false, super_key: false },
        code: KeyCode::KeyC,
    }
}

proof fn lemma_split_plus_nonempty(s: Seq<char>)
    ensures
        split_plus(s).len() >= 1,
    decreases s.len(),
{
    if s.len() > 0 {
        lemma_split_plus_nonempty(s.drop_last());
    }
}

/// The pieces of `v` between the plus signs, each trimmed.
fn split_trimmed(v: &Vec<char>) -> (parts: Vec<Vec<char>>)
    ensures
        parts@.map_values(|p: Vec<char>| p@) == hotkey_parts(v@),
{
    let mut done: Vec<Vec<char>> = Vec::new();
    let mut cur: Vec<char> = Vec::new();
    let mut i: usize = 0;
    while i < v.len()
        invariant
            i <= v.len(),
            done@.map_values(|p: Vec<char>| p@).push(cur@) == split_plus(v@.take(i as int)),
        decreases v.len() - i,
    {
        let ghost prefix = v@.take(i as int);
        let ghost before = done@.map_values(|p: Vec<char>| p@).push(cur@);
        assert(v@.take(i + 1).drop_last() =~= prefix);
        if v[i] == '+' {
            done.push(cur);
            cur = Vec::new();
            assert(done@.map_values(|p: Vec<char>| p@).push(cur@) =~= before.push(Seq::<char>::empty()));
        } else {
            cur.push(v[i]);
            assert(done@.map_values(|p: Vec<char>| p@).push(cur@) =~= before.update(
                before.len() - 1,
                before.last().push(v@[i as int]),
            ));
        }
        i = i + 1;
    }
    assert(v@.take(v.len() as int) =~= v@);
    done.push(cur);
    let ghost raw = done@.map_values(|p: Vec<char>| p@);
    let mut parts: Vec<Vec<char>> = Vec::new();
    let mut k: usize = 0;
    while k < done.len()
        invariant
            k <= done.len(),
            raw == done@.map_values(|p: Vec<char>| p@),
            raw == split_plus(v@),
            parts@.map_values(|p: Vec<char>| p@) =~= raw.take(k as int).map_values(|p: Seq<char>| trim(p)),
        decreases done.len() - k,
    {
        let t = trim_chars(&done[k]);
        assert(raw[k as int] == done@[k as int]@);
        let ghost before = parts@.map_values(|p: Vec<char>| p@);
        parts.push(t);
        assert(parts@.map_values(|p: Vec<char>| p@) =~= before.push(trim(raw[k as int])));
        assert(raw.take(k + 1) =~= raw.take(k as int).push(raw[k as int]));
        k = k + 1;
        assert(parts@.map_values(|p: Vec<char>| p@) =~= raw.take(k as int).map_values(|p: Seq<char>| trim(p)));
    }
    assert(raw.take(done.len() as int) =~= raw);
    parts
}

/// The key a single ASCII character names.
pub fn key_for_char(c: char) -> (r: Option<KeyCode>)
    ensures
        r == char_key(c),
{
    match c {
        'A' | 'a' => Some(KeyCode::KeyA),
        'B' | 'b' => Some(KeyCode::KeyB),
        'C' | 'c' => Some(KeyCode::KeyC),
        'D' | 'd' => Some(KeyCode::KeyD),
        'E' | 'e' => Some(KeyCode::KeyE),
        'F' | 'f' => Some(KeyCode::KeyF),
        'G' | 'g' => Some(KeyCode::KeyG),
        'H' | 'h' => Some(KeyCode::KeyH),
        'I' | 'i' => Some(KeyCode::KeyI),
        'J' | 'j' => Some(KeyCode::KeyJ),
        'K' | 'k' => Some(KeyCode::KeyK),
        'L' | 'l' => Some(KeyCode::KeyL),
        'M' | 'm' => Some(KeyCode::KeyM),
        'N' | 'n' => Some(KeyCode::KeyN),
        'O' | 'o' => Some(KeyCode::KeyO),
        'P' | 'p' => Some(KeyCode::KeyP),
        'Q' | 'q' => Some(KeyCode::KeyQ),
        'R' | 'r' => Some(KeyCode::KeyR),
        'S' | 's' => Some(KeyCode::KeyS),
        'T' | 't' => Some(KeyCode::KeyT),
        'U' | 'u' => Some(KeyCode::KeyU),
        'V' | 'v' => Some(KeyCode::KeyV),
        'W' | 'w' => Some(KeyCode::KeyW),
        'X' | 'x' => Some(KeyCode::KeyX),
        'Y' | 'y' => Some(KeyCode::KeyY),
        'Z' | 'z' => Some(KeyCode::KeyZ),
        '0' => Some(KeyCode::Digit0),
        '1' => Some(KeyCode::Digit1),
        '2' => Some(KeyCode::Digit2),
        '3' => Some(KeyCode::Digit3),
        '4' => Some(KeyCode::Digit4),
        '5' => Some(KeyCode::Digit5),
        '6' => Some(KeyCode::Digit6),
        '7' => Some(KeyCode::Digit7),
        '8' => Some(KeyCode::Digit8),
        '9' => Some(KeyCode::Digit9),
        _ => None,
    }
}

/// The key a lowercase key name names.
pub fn key_for_name(name: &Vec<char>) -> (r: Option<KeyCode>)
    ensures
        r == named_key(name@),
{
    if spells(name, "f1") { Some(KeyCode::F1) }
    else if spells(name, "f2") { Some(KeyCode::F2) }
    else if spells(name, "f3") { Some(KeyCode::F3) }
    else if spells(name, "f4") { Some(KeyCode::F4) }
    else if spells(name, "f5") { Some(KeyCode::F5) }
    else if spells(name, "f6") { Some(KeyCode::F6) }
    else if spells(name, "f7") { Some(KeyCode::F7) }
    else if spells(name, "f8") { Some(KeyCode::F8) }
    else if spells(name, "f9") { Some(KeyCode::F9) }
    else if spells(name, "f10") { Some(KeyCode::F10) }
    else if spells(name, "f11") { Some(KeyCode::F11) }
    else if spells(name, "f12") { Some(KeyCode::F12) }
    else if spells(name, "space") { Some(KeyCode::Space) }
    else if spells(name, "tab") { Some(KeyCode::Tab) }
    else if spells(name, "escape") { Some(KeyCode::Escape) }
    else if spells(name, "enter") { Some(KeyCode::Enter) }
    else if spells(name, "backspace") { Some(KeyCode::Backspace) }
    else if spells(name, "insert") { Some(KeyCode::Insert) }
    else if spells(name, "delete") { Some(KeyCode::Delete) }
    else if spells(name, "home") { Some(KeyCode::Home) }
    else if spells(name, "end") { Some(KeyCode::End) }
    else if spells(name, "pageup") { Some(KeyCode::PageUp) }
    else if spells(name, "pagedown") { Some(KeyCode::PageDown) }
    else if spells(name, "left") { Some(KeyCode::ArrowLeft) }
    else if spells(name, "right") { Some(KeyCode::ArrowRight) }
    else if spells(name, "up") { Some(KeyCode::ArrowUp) }
    else if spells(name, "down") { Some(KeyCode::ArrowDown) }
    else { None }
}

/// The modifier a lowercase modifier name names.
pub fn modifier_for_name(name: &Vec<char>) -> (r: Option<ModifierKey>)
    ensures
        r == named_modifier(name@),
{
    if spells(name, "ctrl") || spells(name, "control") || spells(name, "commandorcontrol") {
        Some(ModifierKey::Control)
    } else if spells(name, "alt") || spells(name, "option") {
        Some(ModifierKey::Alt)
    } else if spells(name, "shift") {
        Some(ModifierKey::Shift)
    } else if spells(name, "super") || spells(name, "command") || spells(name, "cmd")
        || spells(name, "meta") {
        Some(ModifierKey::Super)
    } else {
        None
    }
}

/// The lowercase form of a character sequence.
fn lowercase_chars(v: &Vec<char>) -> (r: Vec<char>)
    ensures
        r@ == lower_form(v@),
{
    let s = string_of(v);
    let lower = to_lowercase(s.as_str());
    chars_of(lower.as_str())
}

/// The key the last part of a hotkey names.
pub fn key_for_part(part: &Vec<char>) -> (r: Option<KeyCode>)
    ensures
        r == part_key(part@),
{
    if part.len() == 1 && (part[0] as u32) < 0x80 {
        key_for_char(part[0])
    } else {
        let lower = lowercase_chars(part);
        key_for_name(&lower)
    }
}

/// The modifier a part names.
pub fn modifier_for_part(part: &Vec<char>) -> (r: Option<ModifierKey>)
    ensures
        r == part_modifier(part@),
{
    let lower = lowercase_chars(part);
    modifier_for_name(&lower)
}

/// Parses a hotkey description: the parts between `+` signs, trimmed, are
/// modifiers (ctrl/control/commandorcontrol, alt/option, shift,
/// super/command/cmd/meta, in any case) followed by one key (a letter or digit,
/// F1 to F12, space, tab, escape, enter, backspace, insert, delete, home, end,
/// pageup, pagedown or an arrow). An unknown modifier or key gives `None`.
pub fn parse_hotkey(hotkey: &str) -> (r: Option<Hotkey>)
    ensures
        r == parse_hotkey_spec(hotkey@),
{
    let chars = chars_of(hotkey);
    let parts = split_trimmed(&chars);
    let ghost ps = parts@.map_values(|p: Vec<char>| p@);
    proof {
        lemma_split_plus_nonempty(hotkey@);
    }
    if parts.len() == 0 {
        return None;
    }
    let n = parts.len();
    let mut modifiers = Modifiers { control: false, alt: false, shift: false, super_key: false };
    let mut code: Option<KeyCode> = None;
    let mut i: usize = 0;
    while i < n
        invariant
            n == parts.len(),
            n >= 1,
            i <= n,
            ps == parts@.map_values(|p: Vec<char>| p@),
            ps == hotkey_parts(hotkey@),
            forall|j: int| 0 <= j < i && j < n - 1 ==> (#[trigger] part_modifier(ps[j])) is Some,
            modifiers == modifiers_named(ps, if i < n { i as int } else { n - 1 }),
            code == (if i == n { part_key(ps[n - 1]) } else { None }),
        decreases n - i,
    {
        if i == n - 1 {
            code = key_for_part(&parts[i]);
        } else {
            match modifier_for_part(&parts[i]) {
                None => {
                    assert(part_modifier(ps[i as int]) is None);
                    return None;
                },
                Some(m) => {
                    let ghost old_mods = modifiers;
                    match m {
                        ModifierKey::Control => { modifiers.control = true; },
                        ModifierKey::Alt => { modifiers.alt = true; },
                        ModifierKey::Shift => { modifiers.shift = true; },
                        ModifierKey::Super => { modifiers.super_key = true; },
                    }
                    proof {
                        assert(part_modifier(ps[i as int]) == Some(m));
                        let k = i + 1;
                        assert forall|mm: ModifierKey| names_modifier(ps, k as int, mm) == (names_modifier(ps, i as int, mm) || m == mm) by {
                            if names_modifier(ps, k as int, mm) && !(m == mm) {
                                let j = choose|j: int| 0 <= j < k && #[trigger] part_modifier(ps[j]) == Some(mm);
                                assert(j < i);
                            }
                        }
                    }
                },
            }
        }
        i = i + 1;
    }
    match code {
        Some(c) => Some(Hotkey { modifiers, code: c }),
        None => None,
    }
}

/// The hotkey to register for a configured description: the parsed one, or
/// Ctrl+Alt+C when the description cannot be read.
pub fn shortcut_for_hotkey(hotkey: &str) -> (h: Hotkey)
    ensures
        h == (match parse_hotkey_spec(hotkey@) {
            Some(p) => p,
            None => default_hotkey(),
        }),
{
    match parse_hotkey(hotkey) {
        Some(h) => h,
        None => Hotkey {
            modifiers: Modifiers { control: true, alt: true, shift: false, super_key: false },
            code: KeyCode::KeyC,
        },
    }
}

/// Swapping two parts of a list.
pub open spec fn swap_parts(parts: Seq<Seq<char>>, i: int, j: int) -> Seq<Seq<char>> {
    parts.update(i, parts[j]).update(j, parts[i])
}

/// Two part lists describe the same hotkey when their last parts name the
/// same key and every modifier part of one names a modifier that some
/// modifier part of the other names.
proof fn lemma_same_modifier_readings(a: Seq<Seq<char>>, b: Seq<Seq<char>>)
    requires
        a.len() >= 1,
        b.len() >= 1,
        part_key(a[a.len() - 1]) == part_key(b[b.len() - 1]),
        forall|i: int| #![trigger a[i]] 0 <= i < a.len() - 1 ==> exists|j: int|
            0 <= j < b.len() - 1 && part_modifier(#[trigger] b[j]) == part_modifier(a[i]),
        forall|j: int| #![trigger b[j]] 0 <= j < b.len() - 1 ==> exists|i: int|
            0 <= i < a.len() - 1 && part_modifier(#[trigger] a[i]) == part_modifier(b[j]),
    ensures
        hotkey_of_parts(a) == hotkey_of_parts(b),
{
    let n = a.len() as int;
    let m = b.len() as int;
    assert forall|k: ModifierKey| #[trigger] names_modifier(a, n - 1, k) == names_modifier(b, m - 1, k) by {
        if names_modifier(a, n - 1, k) {
            let i = choose|i: int| 0 <= i < n - 1 && #[trigger] part_modifier(a[i]) == Some(k);
            let j = choose|j: int| 0 <= j < m - 1 && part_modifier(#[trigger] b[j]) == part_modifier(a[i]);
            assert(part_modifier(b[j]) == Some(k));
        }
        if names_modifier(b, m - 1, k) {
            let j = choose|j: int| 0 <= j < m - 1 && #[trigger] part_modifier(b[j]) == Some(k);
            let i = choose|i: int| 0 <= i < n - 1 && part_modifier(#[trigger] a[i]) == part_modifier(b[j]);
            assert(part_modifier(a[i]) == Some(k));
        }
    }
    let bad_a = exists|i: int| 0 <= i < n - 1 && (#[trigger] part_modifier(a[i])) is None;
    let bad_b = exists|j: int| 0 <= j < m - 1 && (#[trigger] part_modifier(b[j])) is None;
    if bad_a {
        let i = choose|i: int| 0 <= i < n - 1 && (#[trigger] part_modifier(a[i])) is None;
        let j = choose|j: int| 0 <= j < m - 1 && part_modifier(#[trigger] b[j]) == part_modifier(a[i]);
        assert(part_modifier(b[j]) is None);
    }
    if bad_b {
        let j = choose|j: int| 0 <= j < m - 1 && (#[trigger] part_modifier(b[j])) is None;
        let i = choose|i: int| 0 <= i < n - 1 && part_modifier(#[trigger] a[i]) == part_modifier(b[j]);
        assert(part_modifier(a[i]) is None);
    }
    assert(bad_a == bad_b);
    assert(modifiers_named(a, n - 1) == modifiers_named(b, m - 1));
}

/// The order in which modifiers are written does not matter: swapping two
/// modifier parts (any but the last, key, part) describes the same hotkey.
#[verifier::rlimit(40)]
pub proof fn law_modifier_order_irrelevant(parts: Seq<Seq<char>>, i: int, j: int)
    requires
        0 <= i < parts.len() - 1,
        0 <= j < parts.len() - 1,
    ensures
        hotkey_of_parts(swap_parts(parts, i, j)) == hotkey_of_parts(parts),
{
    let q = swap_parts(parts, i, j);
    let n = parts.len() as int;
    assert(q[n - 1] == parts[n - 1]);
    assert forall|k: int| #![trigger q[k]] 0 <= k < n - 1 implies exists|l: int|
        0 <= l < n - 1 && part_modifier(#[trigger] parts[l]) == part_modifier(q[k]) by {
        let l = if k == i { j } else if k == j { i } else { k };
        assert(parts[l] == q[k]);
        assert(0 <= l < n - 1 && part_modifier(parts[l]) == part_modifier(q[k]));
    }
    assert forall|k: int| #![trigger parts[k]] 0 <= k < n - 1 implies exists|l: int|
        0 <= l < n - 1 && part_modifier(#[trigger] q[l]) == part_modifier(parts[k]) by {
        let l = if k == i { j } else if k == j { i } else { k };
        assert(q[l] == parts[k]);
        assert(0 <= l < n - 1 && part_modifier(q[l]) == part_modifier(parts[k]));
    }
    lemma_same_modifier_readings(q, parts);
}

/// The parts joined with `+` between them (`[..].join("+")`).
pub open spec fn join_plus(parts: Seq<Seq<char>>) -> Seq<char>
    decreases parts.len(),
{
    if parts.len() == 0 {
        Seq::empty()
    } else if parts.len() == 1 {
        parts[0]
    } else {
        join_plus(parts.drop_last()) + seq!['+'] + parts.last()
    }
}

proof fn lemma_split_append_piece(s: Seq<char>, t: Seq<char>)
    requires
        !t.contains('+'),
    ensures
        split_plus(s + t) == split_plus(s).update(
            split_plus(s).len() - 1,
            split_plus(s).last() + t,
        ),
    decreases t.len(),
{
    lemma_split_plus_nonempty(s);
    let p = split_plus(s);
    if t.len() == 0 {
        assert(s + t =~= s);
        assert(p.last() + t =~= p.last());
        assert(p.update(p.len() - 1, p.last() + t) =~= p);
    } else {
        let t1 = t.drop_last();
        assert forall|c: char| t1.contains(c) implies t.contains(c) by {
            let k = choose|k: int| 0 <= k < t1.len() && t1[k] == c;
            assert(t[k] == c);
        }
        lemma_split_append_piece(s, t1);
        assert((s + t).drop_last() =~= s + t1);
        assert((s + t).last() == t.last());
        assert(t[t.len() - 1] == t.last());
        assert(t.last() != '+');
        let p1 = split_plus(s + t1);
        assert(p1.last() =~= p.last() + t1);
        assert((p.last() + t1).push(t.last()) =~= p.last() + t);
        assert(p1.update(p1.len() - 1, p1.last().push(t.last())) =~= p.update(p.len() - 1, p.last() + t));
    }
}

proof fn lemma_split_join(parts: Seq<Seq<char>>)
    requires
        parts.len() >= 1,
        forall|i: int| 0 <= i < parts.len() ==> !(#[trigger] parts[i]).contains('+'),
    ensures
        split_plus(join_plus(parts)) == parts,
    decreases parts.len(),
{
    if parts.len() == 1 {
        lemma_split_append_piece(Seq::empty(), parts[0]);
        assert(Seq::<char>::empty() + parts[0] =~= parts[0]);
        assert(split_plus(Seq::<char>::empty()) == seq![Seq::<char>::empty()]);
        assert(seq![Seq::<char>::empty()].update(0, Seq::<char>::empty() + parts[0]) =~= parts);
    } else {
        let rest = parts.drop_last();
        lemma_split_join(rest);
        let j = join_plus(rest);
        assert(j.push('+').drop_last() =~= j);
        assert(split_plus(j.push('+')) == split_plus(j).push(Seq::<char>::empty()));
        assert(j + seq!['+'] + parts.last() =~= j.push('+') + parts.last());
        assert(parts[parts.len() - 1] == parts.last());
        lemma_split_append_piece(j.push('+'), parts.last());
        assert(Seq::<char>::empty() + parts.last() =~= parts.last());
        assert(rest.push(Seq::<char>::empty()).update(rest.len() as int, parts.last()) =~= parts);
    }
}

/// Only the set of modifiers written matters: two descriptions made of parts
/// without `+`, with the same key part, whose modifier parts form the same
/// set (in any order, any of them repeated any number of times) describe the
/// same hotkey. `"Shift+Ctrl+X"` and `"Ctrl+Shift+X"`, or `"Ctrl+Ctrl+X"` and
/// `"Ctrl+X"`, are instances.
pub proof fn law_modifier_set_decides(a: Seq<Seq<char>>, b: Seq<Seq<char>>)
    requires
        a.len() >= 1,
        b.len() >= 1,
        forall|i: int| 0 <= i < a.len() ==> !(#[trigger] a[i]).contains('+'),
        forall|j: int| 0 <= j < b.len() ==> !(#[trigger] b[j]).contains('+'),
        a.last() == b.last(),
        a.drop_last().to_set() == b.drop_last().to_set(),
    ensures
        parse_hotkey_spec(join_plus(a)) == parse_hotkey_spec(join_plus(b)),
{
    lemma_split_join(a);
    lemma_split_join(b);
    let pa = hotkey_parts(join_plus(a));
    let pb = hotkey_parts(join_plus(b));
    let da = a.drop_last();
    let db = b.drop_last();
    assert(pa.len() == a.len());
    assert(pb.len() == b.len());
    assert forall|i: int| #![trigger pa[i]] 0 <= i < pa.len() - 1 implies exists|j: int|
        0 <= j < pb.len() - 1 && part_modifier(#[trigger] pb[j]) == part_modifier(pa[i]) by {
        assert(da[i] == a[i]);
        assert(da.contains(a[i]));
        assert(da.to_set().contains(a[i]));
        assert(db.to_set().contains(a[i]));
        let j = choose|j: int| 0 <= j < db.len() && db[j] == a[i];
        assert(b[j] == db[j]);
        assert(pb[j] == trim(b[j]));
        assert(pa[i] == trim(a[i]));
    }
    assert forall|j: int| #![trigger pb[j]] 0 <= j < pb.len() - 1 implies exists|i: int|
        0 <= i < pa.len() - 1 && part_modifier(#[trigger] pa[i]) == part_modifier(pb[j]) by {
        assert(db[j] == b[j]);
        assert(db.contains(b[j]));
        assert(db.to_set().contains(b[j]));
        assert(da.to_set().contains(b[j]));
        let i = choose|i: int| 0 <= i < da.len() && da[i] == b[j];
        assert(a[i] == da[i]);
        assert(pb[j] == trim(b[j]));
        assert(pa[i] == trim(a[i]));
    }
    assert(pa[pa.len() - 1] == trim(a[a.len() - 1]));
    assert(pb[pb.len() - 1] == trim(b[b.len() - 1]));
    lemma_same_modifier_readings(pa, pb);
}

proof fn lemma_case_char(c: char)
    ensures
        ascii_lower_char(c) == '+' <==> c == '+',
        is_white_space(ascii_lower_char(c)) == is_white_space(c),
        (c as u32) < 0x80 <==> (ascii_lower_char(c) as u32) < 0x80,
        ascii_lower_char(ascii_lower_char(c)) == ascii_lower_char(c),
        ascii_lower_char(ascii_upper_char(c)) == ascii_lower_char(c),
        char_key(ascii_lower_char(c)) == char_key(c),
{
    if 'A' <= c && c <= 'Z' {
        assert(c == 'A' || c == 'B' || c == 'C' || c == 'D' || c == 'E' || c == 'F' || c == 'G'
            || c == 'H' || c == 'I' || c == 'J' || c == 'K' || c == 'L' || c == 'M' || c == 'N'
            || c == 'O' || c == 'P' || c == 'Q' || c == 'R' || c == 'S' || c == 'T' || c == 'U'
            || c == 'V' || c == 'W' || c == 'X' || c == 'Y' || c == 'Z');
    }
    if 'a' <= c && c <= 'z' {
        assert(c == 'a' || c == 'b' || c == 'c' || c == 'd' || c == 'e' || c == 'f' || c == 'g'
            || c == 'h' || c == 'i' || c == 'j' || c == 'k' || c == 'l' || c == 'm' || c == 'n'
            || c == 'o' || c == 'p' || c == 'q' || c == 'r' || c == 's' || c == 't' || c == 'u'
            || c == 'v' || c == 'w' || c == 'x' || c == 'y' || c == 'z');
    }
}

proof fn lemma_split_lower(s: Seq<char>)
    ensures
        split_plus(ascii_lower(s)) == split_plus(s).map_values(|p: Seq<char>| ascii_lower(p)),
    decreases s.len(),
{
    lemma_split_plus_nonempty(s);
    if s.len() == 0 {
        assert(ascii_lower(s) =~= s);
        assert(split_plus(s).map_values(|p: Seq<char>| ascii_lower(p)) =~= seq![ascii_lower(Seq::<char>::empty())]);
        assert(ascii_lower(Seq::<char>::empty()) =~= Seq::<char>::empty());
    } else {
        let l = ascii_lower(s);
        lemma_split_lower(s.drop_last());
        lemma_split_plus_nonempty(s.drop_last());
        assert(l.drop_last() =~= ascii_lower(s.drop_last()));
        assert(l.last() == ascii_lower_char(s.last()));
        lemma_case_char(s.last());
        let p = split_plus(s.drop_last());
        let pl = p.map_values(|q: Seq<char>| ascii_lower(q));
        if s.last() == '+' {
            assert(ascii_lower(Seq::<char>::empty()) =~= Seq::<char>::empty());
            assert(p.push(Seq::<char>::empty()).map_values(|q: Seq<char>| ascii_lower(q)) =~= pl.push(Seq::<char>::empty()));
        } else {
            assert(ascii_lower(p.last().push(s.last())) =~= pl.last().push(ascii_lower_char(s.last())));
            assert(p.update(p.len() - 1, p.last().push(s.last())).map_values(|q: Seq<char>| ascii_lower(q))
                =~= pl.update(pl.len() - 1, pl.last().push(ascii_lower_char(s.last()))));
        }
    }
}

proof fn lemma_trim_start_lower(p: Seq<char>)
    ensures
        trim_start(ascii_lower(p)) == ascii_lower(trim_start(p)),
    decreases p.len(),
{
    if p.len() > 0 {
        lemma_case_char(p[0]);
        assert(ascii_lower(p)[0] == ascii_lower_char(p[0]));
        assert(ascii_lower(p).drop_first() =~= ascii_lower(p.drop_first()));
        lemma_trim_start_lower(p.drop_first());
    }
}

proof fn lemma_trim_end_lower(p: Seq<char>)
    ensures
        trim_end(ascii_lower(p)) == ascii_lower(trim_end(p)),
    decreases p.len(),
{
    if p.len() > 0 {
        lemma_case_char(p.last());
        assert(ascii_lower(p).last() == ascii_lower_char(p.last()));
        assert(ascii_lower(p).drop_last() =~= ascii_lower(p.drop_last()));
        lemma_trim_end_lower(p.drop_last());
    }
}

proof fn lemma_lower_text(p: Seq<char>)
    ensures
        is_ascii_text(ascii_lower(p)) == is_ascii_text(p),
        ascii_lower(ascii_lower(p)) == ascii_lower(p),
        ascii_lower(ascii_upper(p)) == ascii_lower(p),
{
    let l = ascii_lower(p);
    if is_ascii_text(p) {
        assert forall|i: int| 0 <= i < l.len() implies (#[trigger] l[i] as u32) < 0x80 by {
            lemma_case_char(p[i]);
        }
    }
    if is_ascii_text(l) {
        assert forall|i: int| 0 <= i < p.len() implies (#[trigger] p[i] as u32) < 0x80 by {
            lemma_case_char(p[i]);
            assert((l[i] as u32) < 0x80);
        }
    }
    assert forall|i: int| 0 <= i < p.len() implies #[trigger] ascii_lower(ascii_lower(p))[i] == l[i] by {
        lemma_case_char(p[i]);
    }
    assert forall|i: int| 0 <= i < p.len() implies #[trigger] ascii_lower(ascii_upper(p))[i] == l[i] by {
        lemma_case_char(p[i]);
    }
    assert(ascii_lower(ascii_lower(p)) =~= l);
    assert(ascii_lower(ascii_upper(p)) =~= l);
}

proof fn lemma_part_lower(p: Seq<char>)
    ensures
        part_modifier(ascii_lower(p)) == part_modifier(p),
        part_key(ascii_lower(p)) == part_key(p),
{
    lemma_lower_text(p);
    assert(lower_form(ascii_lower(p)) == lower_form(p));
    if p.len() == 1 {
        lemma_case_char(p[0]);
        assert(ascii_lower(p)[0] == ascii_lower_char(p[0]));
        assert(is_single_byte(ascii_lower(p)) == is_single_byte(p));
    }
}

/// Descriptions are read without regard to ASCII case: writing a description
/// with its ASCII letters small (`str::to_ascii_lowercase`) describes the
/// same hotkey, for modifier names, key names and one-letter keys alike.
pub proof fn law_ascii_lowercase_irrelevant(s: Seq<char>)
    ensures
        parse_hotkey_spec(ascii_lower(s)) == parse_hotkey_spec(s),
{
    let p = split_plus(s);
    lemma_split_plus_nonempty(s);
    lemma_split_lower(s);
    let a = hotkey_parts(ascii_lower(s));
    let b = hotkey_parts(s);
    assert(a.len() == b.len());
    assert forall|k: int| 0 <= k < b.len() implies #[trigger] a[k] == ascii_lower(b[k]) by {
        assert(split_plus(ascii_lower(s))[k] == ascii_lower(p[k]));
        lemma_trim_start_lower(p[k]);
        lemma_trim_end_lower(trim_start(p[k]));
    }
    assert forall|i: int| #![trigger a[i]] 0 <= i < a.len() - 1 implies exists|j: int|
        0 <= j < b.len() - 1 && part_modifier(#[trigger] b[j]) == part_modifier(a[i]) by {
        assert(a[i] == ascii_lower(b[i]));
        lemma_part_lower(b[i]);
    }
    assert forall|j: int| #![trigger b[j]] 0 <= j < b.len() - 1 implies exists|i: int|
        0 <= i < a.len() - 1 && part_modifier(#[trigger] a[i]) == part_modifier(b[j]) by {
        assert(a[j] == ascii_lower(b[j]));
        lemma_part_lower(b[j]);
    }
    let n = b.len() - 1;
    assert(a[n] == ascii_lower(b[n]));
    lemma_part_lower(b[n]);
    lemma_same_modifier_readings(a, b);
}

/// A description written with its ASCII letters capital
/// (`str::to_ascii_uppercase`) describes the same hotkey.
pub proof fn law_ascii_uppercase_irrelevant(s: Seq<char>)
    ensures
        parse_hotkey_spec(ascii_upper(s)) == parse_hotkey_spec(s),
{
    lemma_lower_text(s);
    law_ascii_lowercase_irrelevant(s);
    law_ascii_lowercase_irrelevant(ascii_upper(s));
}

/// A one-letter key is read without regard to case: `"Ctrl+a"` and `"Ctrl+A"`
/// describe the same hotkey.
pub proof fn law_letter_key_case_insensitive(parts: Seq<Seq<char>>, lower: char, upper: char)
    requires
        parts.len() >= 1,
        'a' <= lower <= 'z',
        upper as u32 == lower as u32 - 32,
    ensures
        hotkey_of_parts(parts.update(parts.len() - 1, seq![lower]))
            == hotkey_of_parts(parts.update(parts.len() - 1, seq![upper])),
{
    let n = parts.len() - 1;
    let a = parts.update(n, seq![lower]);
    let b = parts.update(n, seq![upper]);
    assert forall|k: int| 0 <= k < n implies #[trigger] a[k] == b[k] by {}
    assert(char_key(lower) == char_key(upper)) by {
        assert(lower == 'a' || lower == 'b' || lower == 'c' || lower == 'd' || lower == 'e'
            || lower == 'f' || lower == 'g' || lower == 'h' || lower == 'i' || lower == 'j'
            || lower == 'k' || lower == 'l' || lower == 'm' || lower == 'n' || lower == 'o'
            || lower == 'p' || lower == 'q' || lower == 'r' || lower == 's' || lower == 't'
            || lower == 'u' || lower == 'v' || lower == 'w' || lower == 'x' || lower == 'y'
            || lower == 'z');
    }
    assert(part_key(a[n]) == part_key(b[n]));
    assert forall|k: int| #![trigger a[k]] 0 <= k < n implies exists|l: int|
        0 <= l < n && part_modifier(#[trigger] b[l]) == part_modifier(a[k]) by {
        assert(b[k] == a[k]);
    }
    assert forall|k: int| #![trigger b[k]] 0 <= k < n implies exists|l: int|
        0 <= l < n && part_modifier(#[trigger] a[l]) == part_modifier(b[k]) by {
        assert(a[k] == b[k]);
    }
    lemma_same_modifier_readings(a, b);
}

/// A one-character key names the key of that same character: the n-th
/// letter of the alphabet, small or capital, names the n-th letter key (so
/// `"Ctrl+D"` ends in `D`), a digit names its digit key, and no other
/// character names a key.
pub proof fn law_character_keys(c: char)
    ensures
        'a' <= c <= 'z' ==> char_key(c) == Some(letter_keys()[c as int - 'a' as int]),
        'A' <= c <= 'Z' ==> char_key(c) == Some(letter_keys()[c as int - 'A' as int]),
        '0' <= c <= '9' ==> char_key(c) == Some(digit_keys()[c as int - '0' as int]),
        !('a' <= c <= 'z' || 'A' <= c <= 'Z' || '0' <= c <= '9') ==> char_key(c) is None,
{
    if 'a' <= c <= 'z' {
        assert(c == 'a' || c == 'b' || c == 'c' || c == 'd' || c == 'e' || c == 'f' || c == 'g'
            || c == 'h' || c == 'i' || c == 'j' || c == 'k' || c == 'l' || c == 'm' || c == 'n'
            || c == 'o' || c == 'p' || c == 'q' || c == 'r' || c == 's' || c == 't' || c == 'u'
            || c == 'v' || c == 'w' || c == 'x' || c == 'y' || c == 'z');
    }
    if 'A' <= c <= 'Z' {
        assert(c == 'A' || c == 'B' || c == 'C' || c == 'D' || c == 'E' || c == 'F' || c == 'G'
            || c == 'H' || c == 'I' || c == 'J' || c == 'K' || c == 'L' || c == 'M' || c == 'N'
            || c == 'O' || c == 'P' || c == 'Q' || c == 'R' || c == 'S' || c == 'T' || c == 'U'
            || c == 'V' || c == 'W' || c == 'X' || c == 'Y' || c == 'Z');
    }
    if '0' <= c <= '9' {
        assert(c == '0' || c == '1' || c == '2' || c == '3' || c == '4' || c == '5' || c == '6'
            || c == '7' || c == '8' || c == '9');
    }
}

/// The key and modifier names, letter by letter.
proof fn lemma_names_spelled()
    ensures
        "f1"@.len() == 2 && "f1"@[0] == 'f' && "f1"@[1] == '1',
        "f2"@.len() == 2 && "f2"@[0] == 'f' && "f2"@[1] == '2',
        "f3"@.len() == 2 && "f3"@[0] == 'f' && "f3"@[1] == '3',
        "f4"@.len() == 2 && "f4"@[0] == 'f' && "f4"@[1] == '4',
        "f5"@.len() == 2 && "f5"@[0] == 'f' && "f5"@[1] == '5',
        "f6"@.len() == 2 && "f6"@[0] == 'f' && "f6"@[1] == '6',
        "f7"@.len() == 2 && "f7"@[0] == 'f' && "f7"@[1] == '7',
        "f8"@.len() == 2 && "f8"@[0] == 'f' && "f8"@[1] == '8',
        "f9"@.len() == 2 && "f9"@[0] == 'f' && "f9"@[1] == '9',
        "f10"@.len() == 3 && "f10"@[0] == 'f' && "f10"@[1] == '1' && "f10"@[2] == '0',
        "f11"@.len() == 3 && "f11"@[0] == 'f' && "f11"@[1] == '1' && "f11"@[2] == '1',
        "f12"@.len() == 3 && "f12"@[0] == 'f' && "f12"@[1] == '1' && "f12"@[2] == '2',
        "space"@.len() == 5 && "space"@[0] == 's' && "space"@[1] == 'p' && "space"@[2] == 'a' && "space"@[3] == 'c' && "space"@[4] == 'e',
        "tab"@.len() == 3 && "tab"@[0] == 't' && "tab"@[1] == 'a' && "tab"@[2] == 'b',
        "escape"@.len() == 6 && "escape"@[0] == 'e' && "escape"@[1] == 's' && "escape"@[2] == 'c' && "escape"@[3] == 'a' && "escape"@[4] == 'p' && "escape"@[5] == 'e',
        "enter"@.len() == 5 && "enter"@[0] == 'e' && "enter"@[1] == 'n' && "enter"@[2] == 't' && "enter"@[3] == 'e' && "enter"@[4] == 'r',
        "backspace"@.len() == 9 && "backspace"@[0] == 'b' && "backspace"@[1] == 'a' && "backspace"@[2] == 'c' && "backspace"@[3] == 'k' && "backspace"@[4] == 's' && "backspace"@[5] == 'p' && "backspace"@[6] == 'a' && "backspace"@[7] == 'c' && "backspace"@[8] == 'e',
        "insert"@.len() == 6 && "insert"@[0] == 'i' && "insert"@[1] == 'n' && "insert"@[2] == 's' && "insert"@[3] == 'e' && "insert"@[4] == 'r' && "insert"@[5] == 't',
        "delete"@.len() == 6 && "delete"@[0] == 'd' && "delete"@[1] == 'e' && "delete"@[2] == 'l' && "delete"@[3] == 'e' && "delete"@[4] == 't' && "delete"@[5] == 'e',
        "home"@.len() == 4 && "home"@[0] == 'h' && "home"@[1] == 'o' && "home"@[2] == 'm' && "home"@[3] == 'e',
        "end"@.len() == 3 && "end"@[0] == 'e' && "end"@[1] == 'n' && "end"@[2] == 'd',
        "pageup"@.len() == 6 && "pageup"@[0] == 'p' && "pageup"@[1] == 'a' && "pageup"@[2] == 'g' && "pageup"@[3] == 'e' && "pageup"@[4] == 'u' && "pageup"@[5] == 'p',
        "pagedown"@.len() == 8 && "pagedown"@[0] == 'p' && "pagedown"@[1] == 'a' && "pagedown"@[2] == 'g' && "pagedown"@[3] == 'e' && "pagedown"@[4] == 'd' && "pagedown"@[5] == 'o' && "pagedown"@[6] == 'w' && "pagedown"@[7] == 'n',
        "left"@.len() == 4 && "left"@[0] == 'l' && "left"@[1] == 'e' && "left"@[2] == 'f' && "left"@[3] == 't',
        "right"@.len() == 5 && "right"@[0] == 'r' && "right"@[1] == 'i' && "right"@[2] == 'g' && "right"@[3] == 'h' && "right"@[4] == 't',
        "up"@.len() == 2 && "up"@[0] == 'u' && "up"@[1] == 'p',
        "down"@.len() == 4 && "down"@[0] == 'd' && "down"@[1] == 'o' && "down"@[2] == 'w' && "down"@[3] == 'n',
        "ctrl"@.len() == 4 && "ctrl"@[0] == 'c' && "ctrl"@[1] == 't' && "ctrl"@[2] == 'r' && "ctrl"@[3] == 'l',
        "control"@.len() == 7 && "control"@[0] == 'c' && "control"@[1] == 'o' && "control"@[2] == 'n' && "control"@[3] == 't' && "control"@[4] == 'r' && "control"@[5] == 'o' && "control"@[6] == 'l',
        "commandorcontrol"@.len() == 16 && "commandorcontrol"@[0] == 'c' && "commandorcontrol"@[1] == 'o' && "commandorcontrol"@[2] == 'm' && "commandorcontrol"@[3] == 'm' && "commandorcontrol"@[4] == 'a' && "commandorcontrol"@[5] == 'n' && "commandorcontrol"@[6] == 'd' && "commandorcontrol"@[7] == 'o' && "commandorcontrol"@[8] == 'r' && "commandorcontrol"@[9] == 'c' && "commandorcontrol"@[10] == 'o' && "commandorcontrol"@[11] == 'n' && "commandorcontrol"@[12] == 't' && "commandorcontrol"@[13] == 'r' && "commandorcontrol"@[14] == 'o' && "commandorcontrol"@[15] == 'l',
        "alt"@.len() == 3 && "alt"@[0] == 'a' && "alt"@[1] == 'l' && "alt"@[2] == 't',
        "option"@.len() == 6 && "option"@[0] == 'o' && "option"@[1] == 'p' && "option"@[2] == 't' && "option"@[3] == 'i' && "option"@[4] == 'o' && "option"@[5] == 'n',
        "shift"@.len() == 5 && "shift"@[0] == 's' && "shift"@[1] == 'h' && "shift"@[2] == 'i' && "shift"@[3] == 'f' && "shift"@[4] == 't',
        "super"@.len() == 5 && "super"@[0] == 's' && "super"@[1] == 'u' && "super"@[2] == 'p' && "super"@[3] == 'e' && "super"@[4] == 'r',
        "command"@.len() == 7 && "command"@[0] == 'c' && "command"@[1] == 'o' && "command"@[2] == 'm' && "command"@[3] == 'm' && "command"@[4] == 'a' && "command"@[5] == 'n' && "command"@[6] == 'd',
        "cmd"@.len() == 3 && "cmd"@[0] == 'c' && "cmd"@[1] == 'm' && "cmd"@[2] == 'd',
        "meta"@.len() == 4 && "meta"@[0] == 'm' && "meta"@[1] == 'e' && "meta"@[2] == 't' && "meta"@[3] == 'a',
{
    reveal_strlit("f1");
    reveal_strlit("f2");
    reveal_strlit("f3");
    reveal_strlit("f4");
    reveal_strlit("f5");
    reveal_strlit("f6");
    reveal_strlit("f7");
    reveal_strlit("f8");
    reveal_strlit("f9");
    reveal_strlit("f10");
    reveal_strlit("f11");
    reveal_strlit("f12");
    reveal_strlit("space");
    reveal_strlit("tab");
    reveal_strlit("escape");
    reveal_strlit("enter");
    reveal_strlit("backspace");
    reveal_strlit("insert");
    reveal_strlit("delete");
    reveal_strlit("home");
    reveal_strlit("end");
    reveal_strlit("pageup");
    reveal_strlit("pagedown");
    reveal_strlit("left");
    reveal_strlit("right");
    reveal_strlit("up");
    reveal_strlit("down");
    reveal_strlit("ctrl");
    reveal_strlit("control");
    reveal_strlit("commandorcontrol");
    reveal_strlit("alt");
    reveal_strlit("option");
    reveal_strlit("shift");
    reveal_strlit("super");
    reveal_strlit("command");
    reveal_strlit("cmd");
    reveal_strlit("meta");
}

/// How a hotkey description names each key that has a name (the function,
/// editing and navigation keys), in small letters; letter and digit keys are
/// written as their character instead.
pub open spec fn key_name(k: KeyCode) -> Option<Seq<char>> {
    match k {
        KeyCode::F1 => Some("f1"@),
        KeyCode::F2 => Some("f2"@),
        KeyCode::F3 => Some("f3"@),
        KeyCode::F4 => Some("f4"@),
        KeyCode::F5 => Some("f5"@),
        KeyCode::F6 => Some("f6"@),
        KeyCode::F7 => Some("f7"@),
        KeyCode::F8 => Some("f8"@),
        KeyCode::F9 => Some("f9"@),
        KeyCode::F10 => Some("f10"@),
        KeyCode::F11 => Some("f11"@),
        KeyCode::F12 => Some("f12"@),
        KeyCode::Space => Some("space"@),
        KeyCode::Tab => Some("tab"@),
        KeyCode::Escape => Some("escape"@),
        KeyCode::Enter => Some("enter"@),
        KeyCode::Backspace => Some("backspace"@),
        KeyCode::Insert => Some("insert"@),
        KeyCode::Delete => Some("delete"@),
        KeyCode::Home => Some("home"@),
        KeyCode::End => Some("end"@),
        KeyCode::PageUp => Some("pageup"@),
        KeyCode::PageDown => Some("pagedown"@),
        KeyCode::ArrowLeft => Some("left"@),
        KeyCode::ArrowRight => Some("right"@),
        KeyCode::ArrowUp => Some("up"@),
        KeyCode::ArrowDown => Some("down"@),
        _ => None,
    }
}

/// Each key name names its own key, and a name that names a key is that
/// key's name: `"f5"` is F5, `"pagedown"` is Page Down, `"left"` the left arrow.
pub proof fn law_key_names(k: KeyCode, name: Seq<char>)
    ensures
        key_name(k) matches Some(n) ==> named_key(n) == Some(k),
        named_key(name) == Some(k) ==> key_name(k) == Some(name),
{
    lemma_names_spelled();
}

/// The modifier names: `ctrl`, `control` and `commandorcontrol` name Control;
/// `alt` and `option` name Alt; `shift` names Shift; `super`, `command`, `cmd`
/// and `meta` name Super; no other name names a modifier.
pub proof fn law_modifier_names(name: Seq<char>)
    ensures
        named_modifier("ctrl"@) == Some(ModifierKey::Control),
        named_modifier("control"@) == Some(ModifierKey::Control),
        named_modifier("commandorcontrol"@) == Some(ModifierKey::Control),
        named_modifier("alt"@) == Some(ModifierKey::Alt),
        named_modifier("option"@) == Some(ModifierKey::Alt),
        named_modifier("shift"@) == Some(ModifierKey::Shift),
        named_modifier("super"@) == Some(ModifierKey::Super),
        named_modifier("command"@) == Some(ModifierKey::Super),
        named_modifier("cmd"@) == Some(ModifierKey::Super),
        named_modifier("meta"@) == Some(ModifierKey::Super),
        named_modifier(name) is Some ==> name == "ctrl"@ || name == "control"@ || name == "commandorcontrol"@
            || name == "alt"@ || name == "option"@ || name == "shift"@ || name == "super"@
            || name == "command"@ || name == "cmd"@ || name == "meta"@,
{
    lemma_names_spelled();
}

} // verus!
