//! Hotkey strings: keyboard combinations such as `ctrl+shift+f8`.
//!
//! Combinations are validated before the host sees them, so that the user gets
//! a precise error in place of the host's generic one. Mouse tokens are
//! recognised only to say that they are not supported yet.
use crate::text::{
    chars_of, decimal, is_digit, is_white, is_word, law_decimal_is_read_back, lemma_decimal_digits,
    lemma_split_nonempty, lower, lowered, parse_unsigned, split, string_of, to_lower_all, trim,
    trimmed, trimmed_end, trimmed_start, unsigned_value,
};
use vstd::prelude::*;
use vstd::string::StringExecFns;

verus! {

pub const MOD_CTRL: u8 = 0b0001;

pub const MOD_ALT: u8 = 0b0010;

pub const MOD_SHIFT: u8 = 0b0100;

pub const MOD_WIN: u8 = 0b1000;

/// A parsed combination (`vk` is a Win32 virtual-key code).
#[derive(Clone, Copy, PartialEq, Eq, Structural, Debug)]
pub struct Spec {
    pub mods: u8,
    pub vk: u16,
}

/// What the tokens read so far amount to.
#[derive(Clone, Copy, PartialEq, Eq, Structural, Debug)]
pub struct Partial {
    pub mods: u8,
    pub vk: Option<u16>,
}

pub open spec fn is_ctrl(t: Seq<char>) -> bool {
    t == "ctrl"@ || t == "control"@
}

pub open spec fn is_alt(t: Seq<char>) -> bool {
    t == "alt"@ || t == "option"@
}

pub open spec fn is_shift(t: Seq<char>) -> bool {
    t == "shift"@
}

pub open spec fn is_win(t: Seq<char>) -> bool {
    t == "win"@ || t == "super"@ || t == "meta"@ || t == "cmd"@ || t == "command"@
}

pub open spec fn is_mouse(t: Seq<char>) -> bool {
    ||| t == "mouse4"@
    ||| t == "xbutton1"@
    ||| t == "x1"@
    ||| t == "back"@
    ||| t == "mouse5"@
    ||| t == "xbutton2"@
    ||| t == "x2"@
    ||| t == "forward"@
}

/// The virtual-key code of a named key.
pub open spec fn named_key(t: Seq<char>) -> Option<u16> {
    if t == "space"@ {
        Some(0x20)
    } else if t == "tab"@ {
        Some(0x09)
    } else if t == "enter"@ || t == "return"@ {
        Some(0x0D)
    } else if t == "backspace"@ {
        Some(0x08)
    } else if t == "escape"@ || t == "esc"@ {
        Some(0x1B)
    } else if t == "pause"@ {
        Some(0x13)
    } else if t == "insert"@ {
        Some(0x2D)
    } else if t == "delete"@ {
        Some(0x2E)
    } else if t == "home"@ {
        Some(0x24)
    } else if t == "end"@ {
        Some(0x23)
    } else if t == "pageup"@ {
        Some(0x21)
    } else if t == "pagedown"@ {
        Some(0x22)
    } else if t == "up"@ {
        Some(0x26)
    } else if t == "left"@ {
        Some(0x25)
    } else if t == "down"@ {
        Some(0x28)
    } else if t == "right"@ {
        Some(0x27)
    } else if t == "minus"@ {
        Some(0xBD)
    } else if t == "equal"@ || t == "equals"@ {
        Some(0xBB)
    } else if t == "bracketleft"@ || t == "leftbracket"@ {
        Some(0xDB)
    } else if t == "bracketright"@ || t == "rightbracket"@ {
        Some(0xDD)
    } else if t == "backslash"@ {
        Some(0xDC)
    } else if t == "semicolon"@ {
        Some(0xBA)
    } else if t == "quote"@ || t == "apostrophe"@ {
        Some(0xDE)
    } else if t == "comma"@ {
        Some(0xBC)
    } else if t == "period"@ || t == "dot"@ {
        Some(0xBE)
    } else if t == "slash"@ {
        Some(0xBF)
    } else if t == "backquote"@ || t == "grave"@ {
        Some(0xC0)
    } else {
        None
    }
}

/// The number of a function key `f1` to `f24`.
pub open spec fn function_key(t: Seq<char>) -> Option<nat> {
    if t.len() > 0 && t[0] == 'f' {
        match unsigned_value(t.skip(1), u16::MAX as nat) {
            Some(n) => if 1 <= n <= 24 {
                Some(n)
            } else {
                None
            },
            None => None,
        }
    } else {
        None
    }
}

/// The virtual-key code of a key name: a lower-case letter, a digit, a
/// function key or a named key.
pub open spec fn vk_of(t: Seq<char>) -> Option<u16> {
    if t.len() == 1 && t[0] <= '\u{7f}' {
        if 'a' <= t[0] <= 'z' {
            Some((0x41 + (t[0] as u32 - 'a' as u32)) as u16)
        } else if '0' <= t[0] <= '9' {
            Some((0x30 + (t[0] as u32 - '0' as u32)) as u16)
        } else {
            None
        }
    } else if function_key(t) is Some {
        Some((0x70 + function_key(t)->0 - 1) as u16)
    } else {
        named_key(t)
    }
}

/// The function keys' part of `key_to_vk`.
fn function_key_number(name: &[char]) -> (r: Option<u64>)
    ensures
        r is Some <==> function_key(name@) is Some,
        r matches Some(n) ==> function_key(name@) == Some(n as nat),
{
    if name.len() == 0 || name[0] != 'f' {
        return None;
    }
    let digits: &[char] = vstd::slice::slice_subrange(name, 1, name.len());
    assert(digits@ == name@.skip(1));
    match parse_unsigned(digits, 65_535) {
        Some(n) => if 1 <= n && n <= 24 {
            Some(n)
        } else {
            None
        },
        None => None,
    }
}

/// The named keys' part of `key_to_vk`.
fn named_key_vk(name: &[char]) -> (r: Option<u16>)
    ensures
        r == named_key(name@),
{
    if is_word(name, "space") {
        Some(0x20)
    } else if is_word(name, "tab") {
        Some(0x09)
    } else if is_word(name, "enter") || is_word(name, "return") {
        Some(0x0D)
    } else if is_word(name, "backspace") {
        Some(0x08)
    } else if is_word(name, "escape") || is_word(name, "esc") {
        Some(0x1B)
    } else if is_word(name, "pause") {
        Some(0x13)
    } else if is_word(name, "insert") {
        Some(0x2D)
    } else if is_word(name, "delete") {
        Some(0x2E)
    } else if is_word(name, "home") {
        Some(0x24)
    } else if is_word(name, "end") {
        Some(0x23)
    } else if is_word(name, "pageup") {
        Some(0x21)
    } else if is_word(name, "pagedown") {
        Some(0x22)
    } else if is_word(name, "up") {
        Some(0x26)
    } else if is_word(name, "left") {
        Some(0x25)
    } else if is_word(name, "down") {
        Some(0x28)
    } else if is_word(name, "right") {
        Some(0x27)
    } else if is_word(name, "minus") {
        Some(0xBD)
    } else if is_word(name, "equal") || is_word(name, "equals") {
        Some(0xBB)
    } else if is_word(name, "bracketleft") || is_word(name, "leftbracket") {
        Some(0xDB)
    } else if is_word(name, "bracketright") || is_word(name, "rightbracket") {
        Some(0xDD)
    } else if is_word(name, "backslash") {
        Some(0xDC)
    } else if is_word(name, "semicolon") {
        Some(0xBA)
    } else if is_word(name, "quote") || is_word(name, "apostrophe") {
        Some(0xDE)
    } else if is_word(name, "comma") {
        Some(0xBC)
    } else if is_word(name, "period") || is_word(name, "dot") {
        Some(0xBE)
    } else if is_word(name, "slash") {
        Some(0xBF)
    } else if is_word(name, "backquote") || is_word(name, "grave") {
        Some(0xC0)
    } else {
        None
    }
}

/// Key name to virtual-key code.
pub fn key_to_vk(name: &[char]) -> (r: Option<u16>)
    ensures
        r == vk_of(name@),
{
    if name.len() == 1 && name[0] <= '\u{7f}' {
        let c: char = name[0];
        if 'a' <= c && c <= 'z' {
            return Some((0x41 + (c as u32 - 'a' as u32)) as u16);
        }
        if '0' <= c && c <= '9' {
            return Some((0x30 + (c as u32 - '0' as u32)) as u16);
        }
        return None;
    }
    match function_key_number(name) {
        Some(n) => Some((0x70 + n - 1) as u16),
        None => named_key_vk(name),
    }
}

/// The effect of one normalised token: the next state, or the error's text.
pub open spec fn absorbed(p: Partial, t: Seq<char>) -> Result<Partial, Seq<char>> {
    if t.len() == 0 {
        Ok(p)
    } else if is_ctrl(t) {
        Ok(Partial { mods: p.mods | MOD_CTRL, vk: p.vk })
    } else if is_alt(t) {
        Ok(Partial { mods: p.mods | MOD_ALT, vk: p.vk })
    } else if is_shift(t) {
        Ok(Partial { mods: p.mods | MOD_SHIFT, vk: p.vk })
    } else if is_win(t) {
        Ok(Partial { mods: p.mods | MOD_WIN, vk: p.vk })
    } else if is_mouse(t) {
        Err("鼠标侧键暂不支持：宿主 register_hotkey 仅支持键盘（鼠标监听计划由宿主 API 提供）"@)
    } else if p.vk is Some {
        Err("快捷键只能有一个主键（多余 token: "@ + t + "）"@)
    } else {
        match vk_of(t) {
            Some(vk) => Ok(Partial { mods: p.mods, vk: Some(vk) }),
            None => Err("无法识别的键名: "@ + t),
        }
    }
}

fn absorb(p: Partial, t: &[char]) -> (r: Result<Partial, String>)
    ensures
        r matches Ok(q) ==> absorbed(p, t@) == Ok::<Partial, Seq<char>>(q),
        r matches Err(e) ==> absorbed(p, t@) == Err::<Partial, Seq<char>>(e@),
{
    if t.len() == 0 {
        Ok(p)
    } else if is_word(t, "ctrl") || is_word(t, "control") {
        Ok(Partial { mods: p.mods | MOD_CTRL, vk: p.vk })
    } else if is_word(t, "alt") || is_word(t, "option") {
        Ok(Partial { mods: p.mods | MOD_ALT, vk: p.vk })
    } else if is_word(t, "shift") {
        Ok(Partial { mods: p.mods | MOD_SHIFT, vk: p.vk })
    } else if is_word(t, "win") || is_word(t, "super") || is_word(t, "meta") || is_word(t, "cmd")
        || is_word(t, "command") {
        Ok(Partial { mods: p.mods | MOD_WIN, vk: p.vk })
    } else if is_word(t, "mouse4") || is_word(t, "xbutton1") || is_word(t, "x1") || is_word(
        t,
        "back",
    ) || is_word(t, "mouse5") || is_word(t, "xbutton2") || is_word(t, "x2") || is_word(
        t,
        "forward",
    ) {
        Err("鼠标侧键暂不支持：宿主 register_hotkey 仅支持键盘（鼠标监听计划由宿主 API 提供）".to_string())
    } else if p.vk.is_some() {
        let mut e = "快捷键只能有一个主键（多余 token: ".to_string();
        e.append(string_of(t).as_str());
        e.append("）");
        Err(e)
    } else {
        match key_to_vk(t) {
            Some(vk) => Ok(Partial { mods: p.mods, vk: Some(vk) }),
            None => {
                let mut e = "无法识别的键名: ".to_string();
                e.append(string_of(t).as_str());
                Err(e)
            },
        }
    }
}

/// The effect of a sequence of raw tokens; the first error wins.
pub open spec fn folded(tokens: Seq<Seq<char>>) -> Result<Partial, Seq<char>>
    decreases tokens.len(),
{
    if tokens.len() == 0 {
        Ok(Partial { mods: 0, vk: None })
    } else {
        match folded(tokens.drop_last()) {
            Err(e) => Err(e),
            Ok(p) => absorbed(p, lowered(trimmed(tokens.last()))),
        }
    }
}

/// An error in a leading run of tokens is the error of the whole.
proof fn lemma_first_error(tokens: Seq<Seq<char>>, n: int)
    requires
        0 <= n <= tokens.len(),
        folded(tokens.take(n)) is Err,
    ensures
        folded(tokens) == folded(tokens.take(n)),
    decreases tokens.len(),
{
    if n < tokens.len() {
        assert(tokens.drop_last().take(n) == tokens.take(n));
        lemma_first_error(tokens.drop_last(), n);
    } else {
        assert(tokens.take(n) == tokens);
    }
}

/// The finished parts of a leading run of characters are parts of the whole.
proof fn lemma_split_prefix(s: Seq<char>, n: int, sep: char)
    requires
        0 <= n <= s.len(),
    ensures
        split(s, sep).len() >= split(s.take(n), sep).len(),
        split(s, sep).take(split(s.take(n), sep).len() - 1) == split(s.take(n), sep).drop_last(),
    decreases s.len(),
{
    lemma_split_nonempty(s.take(n), sep);
    if n < s.len() {
        assert(s.drop_last().take(n) == s.take(n));
        lemma_split_prefix(s.drop_last(), n, sep);
        lemma_split_nonempty(s.drop_last(), sep);
        let shorter = split(s.drop_last(), sep);
        let k = split(s.take(n), sep).len() - 1;
        assert(split(s, sep).take(k) == shorter.take(k));
    } else {
        assert(s.take(n) == s);
    }
}

/// A bare letter or digit would hijack ordinary typing.
pub open spec fn is_typing_key(vk: u16) -> bool {
    0x30 <= vk <= 0x39 || 0x41 <= vk <= 0x5A
}

/// What a hotkey string parses to, or the error's text.
pub open spec fn parsed(text: Seq<char>) -> Result<Spec, Seq<char>> {
    match folded(split(text, '+')) {
        Err(e) => Err(e),
        Ok(p) => match p.vk {
            None => Err("快捷键缺少主键（如 f8、a、space）"@),
            Some(vk) => if p.mods == 0 && is_typing_key(vk) {
                Err("字母/数字主键必须搭配至少一个修饰键（ctrl/alt/shift/win）"@)
            } else {
                Ok(Spec { mods: p.mods, vk })
            },
        },
    }
}

/// Parses a hotkey string.
pub fn parse(text: &str) -> (r: Result<Spec, String>)
    ensures
        r matches Ok(s) ==> parsed(text@) == Ok::<Spec, Seq<char>>(s),
        r matches Err(e) ==> parsed(text@) == Err::<Spec, Seq<char>>(e@),
{
    let chars = chars_of(text);
    let mut p = Partial { mods: 0, vk: None };
    let mut current: Vec<char> = Vec::new();
    let mut i: usize = 0;
    assert(text@.take(0) == Seq::<char>::empty());
    while i < chars.len()
        invariant
            i <= chars@.len(),
            chars@ == text@,
            split(text@.take(i as int), '+').len() >= 1,
            split(text@.take(i as int), '+').last() == current@,
            folded(split(text@.take(i as int), '+').drop_last()) == Ok::<Partial, Seq<char>>(p),
        decreases chars@.len() - i,
    {
        let c: char = chars[i];
        let ghost parts = split(text@.take(i as int), '+');
        assert(text@.take(i + 1).drop_last() == text@.take(i as int));
        if c == '+' {
            assert(split(text@.take(i + 1), '+').drop_last() == parts);
            let token = to_lower_all(trim(current.as_slice()));
            match absorb(p, token.as_slice()) {
                Ok(q) => {
                    p = q;
                },
                Err(e) => {
                    proof {
                        lemma_split_prefix(text@, i + 1, '+');
                        lemma_first_error(split(text@, '+'), parts.len() as int);
                    }
                    return Err(e);
                },
            }
            current = Vec::new();
        } else {
            current.push(c);
            assert(split(text@.take(i + 1), '+').drop_last() == parts.drop_last());
        }
        i = i + 1;
    }
    assert(text@.take(i as int) == text@);
    let token = to_lower_all(trim(current.as_slice()));
    match absorb(p, token.as_slice()) {
        Ok(q) => {
            p = q;
        },
        Err(e) => {
            return Err(e);
        },
    }
    match p.vk {
        None => Err("快捷键缺少主键（如 f8、a、space）".to_string()),
        Some(vk) => {
            let typing: bool = (0x30 <= vk && vk <= 0x39) || (0x41 <= vk && vk <= 0x5A);
            if p.mods == 0 && typing {
                Err("字母/数字主键必须搭配至少一个修饰键（ctrl/alt/shift/win）".to_string())
            } else {
                Ok(Spec { mods: p.mods, vk })
            }
        },
    }
}

// ────────────────────────────────── laws ──────────────────────────────────
/// A token as it is looked up: trimmed, in lower case.
pub open spec fn token(raw: Seq<char>) -> Seq<char> {
    lowered(trimmed(raw))
}

/// A token that names no key: empty or a modifier.
pub open spec fn names_no_key(t: Seq<char>) -> bool {
    t.len() == 0 || is_ctrl(t) || is_alt(t) || is_shift(t) || is_win(t)
}

/// An accepted combination is never a bare letter or digit.
pub proof fn law_typing_keys_need_a_modifier(text: Seq<char>)
    ensures
        parsed(text) matches Ok(s) ==> !(s.mods == 0 && is_typing_key(s.vk)),
{
}

proof fn lemma_folded_mods(tokens: Seq<Seq<char>>)
    ensures
        folded(tokens) matches Ok(p) ==> p.mods < 16,
    decreases tokens.len(),
{
    if tokens.len() > 0 {
        lemma_folded_mods(tokens.drop_last());
        if let Ok(p) = folded(tokens.drop_last()) {
            let m = p.mods;
            assert(m < 16 ==> (m | 1) < 16 && (m | 2) < 16 && (m | 4) < 16 && (m | 8) < 16)
                by (bit_vector);
        }
    }
}

/// An accepted combination holds no other bits than the four modifiers'.
pub proof fn law_only_known_modifiers(text: Seq<char>)
    ensures
        parsed(text) matches Ok(s) ==> s.mods < 16,
{
    lemma_folded_mods(split(text, '+'));
}

proof fn lemma_key_is_kept(tokens: Seq<Seq<char>>, i: int)
    requires
        0 <= i < tokens.len(),
        !names_no_key(token(tokens[i])),
    ensures
        folded(tokens) matches Ok(p) ==> p.vk is Some,
    decreases tokens.len(),
{
    if i < tokens.len() - 1 {
        lemma_key_is_kept(tokens.drop_last(), i);
    }
}

/// A combination with two tokens that are no modifiers is refused.
pub proof fn law_one_main_key_only(text: Seq<char>, i: int, j: int)
    requires
        0 <= i < j < split(text, '+').len(),
        !names_no_key(token(split(text, '+')[i])),
        !names_no_key(token(split(text, '+')[j])),
    ensures
        parsed(text) is Err,
{
    let tokens = split(text, '+');
    let head = tokens.take(j + 1);
    assert(head.drop_last() == tokens.take(j));
    lemma_key_is_kept(tokens.take(j), i);
    lemma_first_error(tokens, j + 1);
}

/// A combination with a mouse token is refused.
pub proof fn law_mouse_is_refused(text: Seq<char>, i: int)
    requires
        0 <= i < split(text, '+').len(),
        is_mouse(token(split(text, '+')[i])),
    ensures
        parsed(text) is Err,
{
    let tokens = split(text, '+');
    assert(tokens.take(i + 1).drop_last() == tokens.take(i));
    lemma_mouse_names_a_key(token(tokens[i]));
    lemma_first_error(tokens, i + 1);
}

proof fn lemma_mouse_names_a_key(t: Seq<char>)
    requires
        is_mouse(t),
    ensures
        !names_no_key(t),
{
    lemma_modifier_spelling(t);
    reveal_strlit("mouse4");
    reveal_strlit("xbutton1");
    reveal_strlit("x1");
    reveal_strlit("back");
    reveal_strlit("mouse5");
    reveal_strlit("xbutton2");
    reveal_strlit("x2");
    reveal_strlit("forward");
}

/// The modifiers' spelling: what tells them from other tokens.
proof fn lemma_modifier_spelling(t: Seq<char>)
    ensures
        names_no_key(t) && t.len() > 0 ==> t.len() >= 3 && (t[0] == 'c' || t[0] == 'a' || t[0] == 'o'
            || t[0] == 's' || t[0] == 'w' || (t[0] == 'm' && t[1] == 'e')),
{
    reveal_strlit("ctrl");
    reveal_strlit("control");
    reveal_strlit("alt");
    reveal_strlit("option");
    reveal_strlit("shift");
    reveal_strlit("win");
    reveal_strlit("super");
    reveal_strlit("meta");
    reveal_strlit("cmd");
    reveal_strlit("command");
}

proof fn lemma_no_key(tokens: Seq<Seq<char>>)
    requires
        forall|i: int| 0 <= i < tokens.len() ==> names_no_key(token(#[trigger] tokens[i])),
    ensures
        folded(tokens) matches Ok(p) && p.vk is None,
    decreases tokens.len(),
{
    if tokens.len() > 0 {
        assert forall|i: int| 0 <= i < tokens.drop_last().len() implies names_no_key(
            token(#[trigger] tokens.drop_last()[i]),
        ) by {
            assert(tokens.drop_last()[i] == tokens[i]);
        }
        lemma_no_key(tokens.drop_last());
    }
}

/// Modifiers alone make no combination.
pub proof fn law_a_main_key_is_needed(text: Seq<char>)
    requires
        forall|i: int|
            0 <= i < split(text, '+').len() ==> names_no_key(token(#[trigger] split(text, '+')[i])),
    ensures
        parsed(text) is Err,
{
    lemma_no_key(split(text, '+'));
}

proof fn lemma_same_state(a: Seq<Seq<char>>, b: Seq<Seq<char>>, post: Seq<Seq<char>>)
    requires
        folded(a) == folded(b),
    ensures
        folded(a + post) == folded(b + post),
    decreases post.len(),
{
    if post.len() > 0 {
        lemma_same_state(a, b, post.drop_last());
        assert((a + post).drop_last() == a + post.drop_last());
        assert((b + post).drop_last() == b + post.drop_last());
    } else {
        assert(a + post == a);
        assert(b + post == b);
    }
}

proof fn lemma_modifier_commutes(p: Partial, m: Seq<char>, t: Seq<char>)
    requires
        names_no_key(m),
    ensures
        absorbed(p, m) is Ok,
        absorbed(p, t) matches Err(e) ==> absorbed(absorbed(p, m)->Ok_0, t) == Err::<
            Partial,
            Seq<char>,
        >(e),
        absorbed(p, t) matches Ok(q) ==> absorbed(absorbed(p, m)->Ok_0, t) == absorbed(q, m),
{
    let b = p.mods;
    assert forall|x: u8, y: u8| #[trigger] ((b | x) | y) == (b | y) | x by {
        assert((b | x) | y == (b | y) | x) by (bit_vector);
    }
}

/// Where a modifier stands among the tokens makes no difference.
pub proof fn law_modifier_order_is_irrelevant(
    pre: Seq<Seq<char>>,
    modifier: Seq<char>,
    other: Seq<char>,
    post: Seq<Seq<char>>,
)
    requires
        names_no_key(token(modifier)),
    ensures
        folded(pre + seq![modifier, other] + post) == folded(pre + seq![other, modifier] + post),
{
    let a = pre + seq![modifier, other];
    let b = pre + seq![other, modifier];
    reveal_with_fuel(folded, 3);
    assert(a.drop_last() == pre + seq![modifier]);
    assert(b.drop_last() == pre + seq![other]);
    assert((pre + seq![modifier]).drop_last() == pre);
    assert((pre + seq![other]).drop_last() == pre);
    assert((pre + seq![modifier]).last() == modifier && (pre + seq![other]).last() == other);
    assert(a.last() == other && b.last() == modifier);
    if let Ok(p) = folded(pre) {
        lemma_modifier_commutes(p, token(modifier), token(other));
    }
    lemma_same_state(a, b, post);
}

proof fn lemma_lower(c: char)
    ensures
        lower(lower(c)) == lower(c),
        is_white(lower(c)) == is_white(c),
        (lower(c) == '+') == (c == '+'),
{
}

proof fn lemma_lowered_trim(s: Seq<char>)
    ensures
        trimmed_start(lowered(s)) == lowered(trimmed_start(s)),
        trimmed_end(lowered(s)) == lowered(trimmed_end(s)),
    decreases s.len(),
{
    if s.len() > 0 {
        lemma_lower(s.first());
        lemma_lower(s.last());
        assert(lowered(s).drop_first() == lowered(s.drop_first()));
        assert(lowered(s).drop_last() == lowered(s.drop_last()));
        lemma_lowered_trim(s.drop_first());
        lemma_lowered_trim(s.drop_last());
    }
}

proof fn lemma_lowered_token(s: Seq<char>)
    ensures
        token(lowered(s)) == token(s),
{
    lemma_lowered_trim(s);
    lemma_lowered_trim(trimmed_start(s));
    let t = trimmed(s);
    assert forall|i: int| 0 <= i < t.len() implies lowered(lowered(t))[i] == lowered(t)[i] by {
        lemma_lower(t[i]);
    }
    assert(lowered(lowered(t)) == lowered(t));
}

proof fn lemma_lowered_split(s: Seq<char>)
    ensures
        split(lowered(s), '+').len() == split(s, '+').len(),
        forall|i: int|
            0 <= i < split(s, '+').len() ==> #[trigger] split(lowered(s), '+')[i] == lowered(
                split(s, '+')[i],
            ),
    decreases s.len(),
{
    if s.len() > 0 {
        lemma_lowered_split(s.drop_last());
        lemma_split_nonempty(s.drop_last(), '+');
        assert(lowered(s).drop_last() == lowered(s.drop_last()));
        lemma_lower(s.last());
        let last = split(s.drop_last(), '+').last();
        assert(lowered(last.push(s.last())) == lowered(last).push(lower(s.last())));
    }
    assert(lowered(Seq::<char>::empty()) == Seq::<char>::empty());
}

proof fn lemma_same_tokens(a: Seq<Seq<char>>, b: Seq<Seq<char>>)
    requires
        a.len() == b.len(),
        forall|i: int| 0 <= i < a.len() ==> token(#[trigger] a[i]) == token(b[i]),
    ensures
        folded(a) == folded(b),
    decreases a.len(),
{
    if a.len() > 0 {
        assert forall|i: int| 0 <= i < a.drop_last().len() implies token(
            #[trigger] a.drop_last()[i],
        ) == token(b.drop_last()[i]) by {
            assert(a.drop_last()[i] == a[i]);
        }
        lemma_same_tokens(a.drop_last(), b.drop_last());
    }
}

/// Upper case and lower case spell the same combination.
pub proof fn law_case_is_ignored(text: Seq<char>)
    ensures
        parsed(lowered(text)) == parsed(text),
{
    lemma_lowered_split(text);
    let tokens = split(text, '+');
    assert forall|i: int| 0 <= i < tokens.len() implies token(
        #[trigger] split(lowered(text), '+')[i],
    ) == token(tokens[i]) by {
        lemma_lowered_token(tokens[i]);
    }
    lemma_same_tokens(split(lowered(text), '+'), tokens);
}

/// A text without separators is its only token.
proof fn lemma_split_single(s: Seq<char>, sep: char)
    requires
        forall|i: int| 0 <= i < s.len() ==> #[trigger] s[i] != sep,
    ensures
        split(s, sep) == seq![s],
    decreases s.len(),
{
    if s.len() > 0 {
        assert forall|i: int| 0 <= i < s.drop_last().len() implies #[trigger] s.drop_last()[i]
            != sep by {
            assert(s.drop_last()[i] == s[i]);
        }
        lemma_split_single(s.drop_last(), sep);
        let parts = split(s.drop_last(), sep);
        assert(parts.last() == s.drop_last());
        assert(s.drop_last().push(s.last()) == s);
        assert(parts.drop_last().push(s) == seq![s]);
    } else {
        assert(s == Seq::<char>::empty());
    }
}

/// `f1` to `f24` need no modifier.
pub proof fn law_function_keys_stand_alone(n: nat)
    requires
        1 <= n <= 24,
    ensures
        parsed(seq!['f'] + decimal(n)) == Ok::<Spec, Seq<char>>(
            Spec { mods: 0, vk: (0x70 + n - 1) as u16 },
        ),
{
    let text = seq!['f'] + decimal(n);
    lemma_decimal_digits(n);
    law_decimal_is_read_back(n, u16::MAX as nat);
    assert(text.skip(1) == decimal(n));
    assert forall|i: int| 0 <= i < text.len() implies #[trigger] text[i] != '+' && !is_white(text[i])
        && lower(text[i]) == text[i] by {
        if i > 0 {
            assert(text[i] == decimal(n)[i - 1]);
        }
    }
    lemma_split_single(text, '+');
    assert(trimmed(text) == text);
    assert(lowered(text) == text);
    assert(split(text, '+').drop_last() == Seq::<Seq<char>>::empty());
    lemma_modifier_spelling(text);
    assert(!is_mouse(text)) by {
        assert(is_digit(text[1])) by {
            assert(text[1] == decimal(n)[0]);
        }
        reveal_strlit("mouse4");
        reveal_strlit("xbutton1");
        reveal_strlit("x1");
        reveal_strlit("back");
        reveal_strlit("mouse5");
        reveal_strlit("xbutton2");
        reveal_strlit("x2");
        reveal_strlit("forward");
    }
    assert(folded(Seq::<Seq<char>>::empty()) == Ok::<Partial, Seq<char>>(
        Partial { mods: 0, vk: None },
    ));
    assert(split(text, '+').last() == text);
}

/// The tokens of two texts in a row: the last of the first and the first of the
/// second are one.
proof fn lemma_split_join(a: Seq<char>, b: Seq<char>, sep: char)
    ensures
        split(a, sep).len() >= 1,
        split(b, sep).len() >= 1,
        split(a + b, sep) == split(a, sep).drop_last() + seq![
            split(a, sep).last() + split(b, sep)[0],
        ] + split(b, sep).skip(1),
    decreases b.len(),
{
    lemma_split_nonempty(a, sep);
    lemma_split_nonempty(b, sep);
    let left = split(a, sep);
    if b.len() == 0 {
        assert(a + b == a);
        assert(left.last() + Seq::<char>::empty() == left.last());
        assert(split(b, sep).skip(1) == Seq::<Seq<char>>::empty());
        assert(left == left.drop_last() + seq![left.last()] + Seq::<Seq<char>>::empty());
    } else {
        let short = b.drop_last();
        let c = b.last();
        lemma_split_join(a, short, sep);
        assert((a + b).drop_last() == a + short);
        let parts = split(short, sep);
        let whole = split(a + short, sep);
        assert(whole.len() == left.len() + parts.len() - 1);
        if c == sep {
            assert(split(b, sep) == parts.push(Seq::<char>::empty()));
            assert(split(b, sep).skip(1) == parts.skip(1).push(Seq::<char>::empty()));
            assert(split(b, sep)[0] == parts[0]);
        } else if parts.len() == 1 {
            assert(split(b, sep) == seq![parts[0].push(c)]);
            assert(split(b, sep).skip(1) == Seq::<Seq<char>>::empty());
            assert(whole.last() == left.last() + parts[0]);
            assert((left.last() + parts[0]).push(c) == left.last() + parts[0].push(c));
            assert(whole.drop_last() == left.drop_last());
        } else {
            assert(whole.last() == parts.last());
            assert(split(b, sep)[0] == parts[0]);
            assert(split(b, sep).skip(1) == parts.skip(1).drop_last().push(parts.last().push(c)));
            assert(whole.drop_last() == left.drop_last() + seq![left.last() + parts[0]]
                + parts.skip(1).drop_last());
        }
        assert(split(a + b, sep) =~= left.drop_last() + seq![left.last() + split(b, sep)[0]]
            + split(b, sep).skip(1));
    }
}

/// A text that is empty or ends with a separator has an empty last token; one
/// that is empty or starts with a separator has an empty first token.
proof fn lemma_split_edges(s: Seq<char>, sep: char)
    ensures
        split(s, sep).len() >= 1,
        s.len() == 0 || s.last() == sep ==> split(s, sep).last() == Seq::<char>::empty(),
        s.len() == 0 || s[0] == sep ==> split(s, sep)[0] == Seq::<char>::empty(),
{
    lemma_split_nonempty(s, sep);
    if s.len() > 0 && s.last() == sep {
        lemma_split_nonempty(s.drop_last(), sep);
    }
    if s.len() > 0 && s[0] == sep {
        let one = seq![sep];
        assert(s == one + s.skip(1));
        lemma_split_join(one, s.skip(1), sep);
        assert(one.drop_last() == Seq::<char>::empty());
        assert(split(one, sep) == seq![Seq::<char>::empty(), Seq::<char>::empty()]) by {
            assert(split(one.drop_last(), sep) == seq![Seq::<char>::empty()]);
        }
    }
}

proof fn lemma_trim_edges(s: Seq<char>, w: char)
    requires
        is_white(w),
    ensures
        trimmed(seq![w] + s) == trimmed(s),
        trimmed(s + seq![w]) == trimmed(s),
    decreases s.len(),
{
    assert((seq![w] + s).drop_first() == s);
    let t = s + seq![w];
    if s.len() == 0 {
        assert(t == seq![w]);
        assert(t.drop_first() == Seq::<char>::empty());
        assert(s == Seq::<char>::empty());
    } else if is_white(s.first()) {
        lemma_trim_edges(s.drop_first(), w);
        assert(t.drop_first() == s.drop_first() + seq![w]);
    } else {
        assert(t.drop_last() == s);
    }
}

/// White space at the edge of a token makes no difference: at either end of the
/// text, and on either side of a separator.
pub proof fn law_spacing_is_ignored(pre: Seq<char>, white: char, post: Seq<char>)
    requires
        is_white(white),
        pre.len() == 0 || pre.last() == '+' || post.len() == 0 || post[0] == '+',
    ensures
        parsed(pre + seq![white] + post) == parsed(pre + post),
{
    let gap = seq![white];
    assert(gap.drop_last() == Seq::<char>::empty());
    lemma_split_single(gap, '+');
    lemma_split_join(pre, gap, '+');
    lemma_split_join(pre + gap, post, '+');
    lemma_split_join(pre, post, '+');
    lemma_split_edges(pre, '+');
    lemma_split_edges(post, '+');
    let left = split(pre, '+');
    let right = split(post, '+');
    let a = split(pre + gap + post, '+');
    let b = split(pre + post, '+');
    assert(split(pre + gap, '+') == left.drop_last() + seq![left.last() + gap]);
    assert(a =~= left.drop_last() + seq![left.last() + gap + right[0]] + right.skip(1));
    let k = left.len() - 1;
    assert(token(a[k]) == token(b[k])) by {
        if left.last().len() == 0 {
            assert(left.last() + gap + right[0] == gap + right[0]);
            assert(left.last() + right[0] == right[0]);
            lemma_trim_edges(right[0], white);
        } else {
            assert(left.last() + gap + right[0] == left.last() + gap);
            assert(left.last() + right[0] == left.last());
            lemma_trim_edges(left.last(), white);
        }
    }
    assert forall|i: int| 0 <= i < a.len() implies token(#[trigger] a[i]) == token(b[i]) by {
        if i != k {
            assert(a[i] == b[i]);
        }
    }
    lemma_same_tokens(a, b);
}

proof fn lemma_blank_is_nothing(pre: Seq<Seq<char>>, blank: Seq<char>, post: Seq<Seq<char>>)
    requires
        token(blank).len() == 0,
    ensures
        folded(pre + seq![blank] + post) == folded(pre + post),
{
    assert((pre + seq![blank]).drop_last() == pre);
    assert(folded(pre + seq![blank]) == folded(pre));
    lemma_same_state(pre + seq![blank], pre, post);
}

/// A stray separator makes no difference: one at either end of the text, or next
/// to another.
pub proof fn law_stray_separators_are_ignored(pre: Seq<char>, post: Seq<char>)
    requires
        pre.len() == 0 || pre.last() == '+' || post.len() == 0 || post[0] == '+',
    ensures
        parsed(pre + seq!['+'] + post) == parsed(pre + post),
{
    let none = Seq::<char>::empty();
    let one = seq!['+'];
    assert(one.drop_last() == none);
    assert(split(one, '+') == seq![none, none]) by {
        assert(split(one.drop_last(), '+') == seq![none]);
    }
    lemma_split_join(pre, one, '+');
    lemma_split_join(pre + one, post, '+');
    lemma_split_join(pre, post, '+');
    lemma_split_edges(pre, '+');
    lemma_split_edges(post, '+');
    let left = split(pre, '+');
    let right = split(post, '+');
    assert(left.last() + none == left.last());
    assert(none + right[0] == right[0]);
    assert(split(one, '+').skip(1) == seq![none]);
    assert(split(pre + one, '+') =~= left.push(none));
    let a = split(pre + one + post, '+');
    assert(a =~= left + seq![right[0]] + right.skip(1));
    assert(lowered(trimmed(none)) == none);
    if left.last().len() == 0 {
        assert(left.last() == none);
        assert(left.last() + right[0] == right[0]);
        lemma_blank_is_nothing(left.drop_last(), none, seq![right[0]] + right.skip(1));
        assert(a =~= left.drop_last() + seq![none] + (seq![right[0]] + right.skip(1)));
        assert(split(pre + post, '+') =~= left.drop_last() + (seq![right[0]] + right.skip(1)));
    } else {
        assert(right[0] == none);
        assert(left.last() + right[0] == left.last());
        lemma_blank_is_nothing(left, none, right.skip(1));
        assert(split(pre + post, '+') =~= left + right.skip(1));
    }
}

/// The bit of a modifier's name.
pub open spec fn modifier_bit(t: Seq<char>) -> Option<u8> {
    if is_ctrl(t) {
        Some(MOD_CTRL)
    } else if is_alt(t) {
        Some(MOD_ALT)
    } else if is_shift(t) {
        Some(MOD_SHIFT)
    } else if is_win(t) {
        Some(MOD_WIN)
    } else {
        None
    }
}

proof fn lemma_bit_stays(b: u8, x: u8, y: u8)
    ensures
        b | x == b ==> (b | y) | x == b | y,
        (b | x) | x == b | x,
{
    assert(b | x == b ==> (b | y) | x == b | y) by (bit_vector);
    assert((b | x) | x == b | x) by (bit_vector);
}

/// A modifier that stands among the tokens is set.
proof fn lemma_modifier_is_set(tokens: Seq<Seq<char>>, i: int, bit: u8)
    requires
        0 <= i < tokens.len(),
        token(tokens[i]).len() > 0,
        modifier_bit(token(tokens[i])) == Some(bit),
    ensures
        folded(tokens) matches Ok(p) ==> p.mods | bit == p.mods,
    decreases tokens.len(),
{
    if let Ok(p) = folded(tokens.drop_last()) {
        let t = token(tokens.last());
        if i < tokens.len() - 1 {
            lemma_modifier_is_set(tokens.drop_last(), i, bit);
            lemma_bit_stays(p.mods, bit, MOD_CTRL);
            lemma_bit_stays(p.mods, bit, MOD_ALT);
            lemma_bit_stays(p.mods, bit, MOD_SHIFT);
            lemma_bit_stays(p.mods, bit, MOD_WIN);
        } else {
            lemma_bit_stays(p.mods, bit, bit);
        }
    }
}

proof fn lemma_modifier_moves_last(pre: Seq<Seq<char>>, m: Seq<char>, post: Seq<Seq<char>>)
    requires
        names_no_key(token(m)),
    ensures
        folded(pre + seq![m] + post) == folded(pre + post + seq![m]),
    decreases post.len(),
{
    if post.len() == 0 {
        assert(pre + seq![m] + post == pre + post + seq![m]);
    } else {
        let x = post[0];
        let rest = post.skip(1);
        law_modifier_order_is_irrelevant(pre, m, x, rest);
        assert(pre + seq![m] + post == pre + seq![m, x] + rest);
        assert(pre + seq![x, m] + rest == (pre + seq![x]) + seq![m] + rest);
        lemma_modifier_moves_last(pre + seq![x], m, rest);
        assert(pre + seq![x] + rest == pre + post);
    }
}

/// A modifier that stands among the tokens already may be repeated anywhere, by
/// the same name or another, without a difference: `more` is `text` with one
/// more token at place `k`, the modifier of the token at place `i`.
pub proof fn law_repeated_modifiers_are_ignored(
    text: Seq<char>,
    more: Seq<char>,
    modifier: Seq<char>,
    k: int,
    i: int,
)
    requires
        0 <= k <= split(text, '+').len(),
        0 <= i < split(text, '+').len(),
        split(more, '+') == split(text, '+').insert(k, modifier),
        modifier_bit(token(modifier)) is Some,
        modifier_bit(token(split(text, '+')[i])) == modifier_bit(token(modifier)),
    ensures
        parsed(more) == parsed(text),
{
    let tokens = split(text, '+');
    let pre = tokens.take(k);
    let post = tokens.skip(k);
    let bit = modifier_bit(token(modifier))->0;
    assert(pre + post =~= tokens);
    assert(split(more, '+') =~= pre + seq![modifier] + post);
    assert(token(modifier).len() > 0 && token(tokens[i]).len() > 0) by {
        lemma_modifiers_have_names(token(modifier));
        lemma_modifiers_have_names(token(tokens[i]));
    }
    lemma_modifier_moves_last(pre, modifier, post);
    lemma_modifier_is_set(tokens, i, bit);
    assert((tokens + seq![modifier]).drop_last() == tokens);
    assert((tokens + seq![modifier]).last() == modifier);
}

proof fn lemma_modifiers_have_names(t: Seq<char>)
    requires
        modifier_bit(t) is Some,
    ensures
        t.len() > 0,
{
    reveal_strlit("ctrl");
    reveal_strlit("control");
    reveal_strlit("alt");
    reveal_strlit("option");
    reveal_strlit("shift");
    reveal_strlit("win");
    reveal_strlit("super");
    reveal_strlit("meta");
    reveal_strlit("cmd");
    reveal_strlit("command");
}

/// Each of two names is one of the pair.
pub open spec fn in_pair(a: Seq<char>, b: Seq<char>, x: Seq<char>, y: Seq<char>) -> bool {
    (a == x || a == y) && (b == x || b == y)
}

/// Two names of one key: the same name, two numerals of one function key, or
/// one of the pairs of names.
pub open spec fn is_one_key(a: Seq<char>, b: Seq<char>) -> bool {
    ||| a == b
    ||| function_key(a) is Some && function_key(a) == function_key(b)
    ||| in_pair(a, b, "enter"@, "return"@)
    ||| in_pair(a, b, "escape"@, "esc"@)
    ||| in_pair(a, b, "equal"@, "equals"@)
    ||| in_pair(a, b, "bracketleft"@, "leftbracket"@)
    ||| in_pair(a, b, "bracketright"@, "rightbracket"@)
    ||| in_pair(a, b, "quote"@, "apostrophe"@)
    ||| in_pair(a, b, "period"@, "dot"@)
    ||| in_pair(a, b, "backquote"@, "grave"@)
}

/// Distinct keys have distinct codes.
pub proof fn law_keys_have_distinct_codes(a: Seq<char>, b: Seq<char>)
    requires
        vk_of(a) is Some,
        vk_of(a) == vk_of(b),
    ensures
        is_one_key(a, b),
{
    if a.len() == 1 && b.len() == 1 && a[0] == b[0] {
        assert(a =~= b);
    }
}

} // verus!
