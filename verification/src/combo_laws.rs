//! What every hotkey string comes to: which are accepted, as what, and what the
//! others are told.
use crate::hotkey::{
    absorbed, folded, function_key, is_alt, is_ctrl, is_mouse, is_shift, is_typing_key, is_win,
    named_key, names_no_key, parsed, token, vk_of, Spec,
};
use crate::text::{lowered, split, trimmed, unsigned_value};
use vstd::prelude::*;

verus! {

// ────────────────────────────────── words ──────────────────────────────────
/// A word names the modifier with that bit.
pub open spec fn names(t: Seq<char>, bit: u8) -> bool {
    if bit == 1 {
        t == "ctrl"@ || t == "control"@
    } else if bit == 2 {
        t == "alt"@ || t == "option"@
    } else if bit == 4 {
        t == "shift"@
    } else {
        bit == 8 && (t == "win"@ || t == "super"@ || t == "meta"@ || t == "cmd"@ || t
            == "command"@)
    }
}

/// A word names a side button of the mouse.
pub open spec fn names_a_button(t: Seq<char>) -> bool {
    t == "mouse4"@ || t == "mouse5"@ || t == "xbutton1"@ || t == "xbutton2"@ || t == "x1"@ || t
        == "x2"@ || t == "back"@ || t == "forward"@
}

/// A word names a key that is no letter, digit or function key.
pub open spec fn names_a_special_key(t: Seq<char>) -> bool {
    ||| t == "space"@ || t == "tab"@ || t == "enter"@ || t == "return"@ || t == "backspace"@
    ||| t == "escape"@ || t == "esc"@ || t == "pause"@ || t == "insert"@ || t == "delete"@
    ||| t == "home"@ || t == "end"@ || t == "pageup"@ || t == "pagedown"@
    ||| t == "up"@ || t == "left"@ || t == "down"@ || t == "right"@
    ||| t == "minus"@ || t == "equal"@ || t == "equals"@
    ||| t == "bracketleft"@ || t == "leftbracket"@ || t == "bracketright"@ || t
        == "rightbracket"@
    ||| t == "backslash"@ || t == "semicolon"@ || t == "quote"@ || t == "apostrophe"@
    ||| t == "comma"@ || t == "period"@ || t == "dot"@ || t == "slash"@
    ||| t == "backquote"@ || t == "grave"@
}

proof fn lemma_words_differ(t: Seq<char>)
    ensures
        is_ctrl(t) <==> names(t, 1),
        is_alt(t) <==> names(t, 2),
        is_shift(t) <==> names(t, 4),
        is_win(t) <==> names(t, 8),
        names(t, 1) ==> !names(t, 2) && !names(t, 4) && !names(t, 8),
        names(t, 2) ==> !names(t, 4) && !names(t, 8),
        names(t, 4) ==> !names(t, 8),
        names(t, 1) || names(t, 2) || names(t, 4) || names(t, 8) ==> t.len() > 0,
{
    reveal_strlit("ctrl");
    reveal_strlit("control");
    reveal_strlit("alt");
    reveal_strlit("option");
    reveal_strlit("shift");
    reveal_strlit("win");
    reveal_strlit("super");
    reveal_strlit("meta");
    reveal_strlit("cmd");
    reveal_strlit("command");
    assert("ctrl"@[1] == 't' && "control"@[2] == 'n' && "cmd"@[1] == 'm' && "command"@[2] == 'm');
    assert("ctrl"@.len() == 4 && "control"@.len() == 7 && "cmd"@.len() == 3 && "command"@.len()
        == 7);
    assert("shift"@[1] == 'h' && "super"@[1] == 'u');
    assert("alt"@[0] == 'a' && "option"@[0] == 'o' && "win"@[0] == 'w' && "meta"@[0] == 'm');
    assert("ctrl"@[0] == 'c' && "control"@[0] == 'c' && "cmd"@[0] == 'c' && "command"@[0] == 'c'
        && "shift"@[0] == 's' && "super"@[0] == 's');
}

proof fn lemma_buttons_are_no_modifiers(t: Seq<char>)
    requires
        is_mouse(t),
    ensures
        !names_no_key(t),
{
    lemma_words_differ(t);
    reveal_strlit("ctrl");
    reveal_strlit("control");
    reveal_strlit("alt");
    reveal_strlit("option");
    reveal_strlit("shift");
    reveal_strlit("win");
    reveal_strlit("super");
    reveal_strlit("meta");
    reveal_strlit("cmd");
    reveal_strlit("command");
    reveal_strlit("mouse4");
    reveal_strlit("xbutton1");
    reveal_strlit("x1");
    reveal_strlit("back");
    reveal_strlit("mouse5");
    reveal_strlit("xbutton2");
    reveal_strlit("x2");
    reveal_strlit("forward");
    assert("mouse4"@[1] == 'o' && "mouse5"@[1] == 'o' && "meta"@[1] == 'e');
    assert("mouse4"@[0] == 'm' && "mouse5"@[0] == 'm' && "xbutton1"@[0] == 'x' && "xbutton2"@[0]
        == 'x' && "x1"@[0] == 'x' && "x2"@[0] == 'x' && "back"@[0] == 'b' && "forward"@[0] == 'f');
    assert("alt"@[0] == 'a' && "option"@[0] == 'o' && "win"@[0] == 'w' && "meta"@[0] == 'm');
    assert("ctrl"@[0] == 'c' && "control"@[0] == 'c' && "cmd"@[0] == 'c' && "command"@[0] == 'c'
        && "shift"@[0] == 's' && "super"@[0] == 's');
}

/// A word is a token trimmed and in lower case; the words that name no key are
/// the empty one and the ten modifiers; the buttons are eight.
pub proof fn law_words_are_known(t: Seq<char>)
    ensures
        names_no_key(t) <==> t.len() == 0 || names(t, 1) || names(t, 2) || names(t, 4) || names(
            t,
            8,
        ),
        is_mouse(t) <==> names_a_button(t),
        token(t) == lowered(trimmed(t)),
{
    lemma_words_differ(t);
}

/// Letters and digits have their own codes, in order; no other single character
/// names a key.
pub proof fn law_letters_and_digits_have_codes_in_order(c: char)
    ensures
        'a' <= c <= 'z' ==> (vk_of(seq![c]) matches Some(vk) && vk - 0x41 == c as int
            - 'a' as int),
        '0' <= c <= '9' ==> (vk_of(seq![c]) matches Some(vk) && vk - 0x30 == c as int
            - '0' as int),
        !('a' <= c <= 'z') && !('0' <= c <= '9') ==> vk_of(seq![c]) is None,
{
    let t = seq![c];
    if c > '\u{7f}' {
        assert(t.skip(1) =~= Seq::<char>::empty());
        lemma_special_keys_are_long(t);
    }
}

proof fn lemma_special_keys_are_long(t: Seq<char>)
    ensures
        names_a_special_key(t) ==> t.len() >= 2,
        named_key(t) is Some <==> names_a_special_key(t),
{
    reveal_strlit("space");
    reveal_strlit("tab");
    reveal_strlit("enter");
    reveal_strlit("return");
    reveal_strlit("backspace");
    reveal_strlit("escape");
    reveal_strlit("esc");
    reveal_strlit("pause");
    reveal_strlit("insert");
    reveal_strlit("delete");
    reveal_strlit("home");
    reveal_strlit("end");
    reveal_strlit("pageup");
    reveal_strlit("pagedown");
    reveal_strlit("up");
    reveal_strlit("left");
    reveal_strlit("down");
    reveal_strlit("right");
    reveal_strlit("minus");
    reveal_strlit("equal");
    reveal_strlit("equals");
    reveal_strlit("bracketleft");
    reveal_strlit("leftbracket");
    reveal_strlit("bracketright");
    reveal_strlit("rightbracket");
    reveal_strlit("backslash");
    reveal_strlit("semicolon");
    reveal_strlit("quote");
    reveal_strlit("apostrophe");
    reveal_strlit("comma");
    reveal_strlit("period");
    reveal_strlit("dot");
    reveal_strlit("slash");
    reveal_strlit("backquote");
    reveal_strlit("grave");
}

/// The function keys are an `f` and a number of 1 to 24, and their codes follow
/// one another.
pub proof fn law_function_keys_have_codes_in_order(digits: Seq<char>)
    requires
        digits.len() > 0,
    ensures
        unsigned_value(digits, 65_535) matches Some(n) ==> 1 <= n <= 24 ==> (vk_of(
            seq!['f'] + digits,
        ) matches Some(vk) && vk == 0x6F + n),
        !(unsigned_value(digits, 65_535) matches Some(n) && 1 <= n <= 24) && !names_a_special_key(
            seq!['f'] + digits,
        ) ==> vk_of(seq!['f'] + digits) is None,
{
    let t = seq!['f'] + digits;
    assert(t.skip(1) =~= digits);
    lemma_special_keys_are_long(t);
}

/// No word but a letter, a digit, a function key or a special key names a key.
pub proof fn law_only_known_keys_have_codes(t: Seq<char>)
    requires
        vk_of(t) is Some,
    ensures
        ({
            ||| t.len() == 1 && ('a' <= t[0] <= 'z' || '0' <= t[0] <= '9')
            ||| t.len() >= 2 && t[0] == 'f' && (unsigned_value(t.skip(1), 65_535) matches Some(n)
                && 1 <= n <= 24)
            ||| names_a_special_key(t)
        }),
{
    lemma_special_keys_are_long(t);
    if t.len() == 1 && t[0] == 'f' {
        assert(t.skip(1) =~= Seq::<char>::empty());
    }
    if t.len() > 0 && t[0] == 'f' && function_key(t) is Some && t.len() < 2 {
        assert(t.skip(1) =~= Seq::<char>::empty());
    }
}

// ──────────────────────────────── modifiers ────────────────────────────────
proof fn lemma_bit(tokens: Seq<Seq<char>>, bit: u8)
    requires
        bit == 1 || bit == 2 || bit == 4 || bit == 8,
    ensures
        folded(tokens) matches Ok(p) ==> (p.mods & bit == bit <==> exists|i: int|
            0 <= i < tokens.len() && names(token(#[trigger] tokens[i]), bit)),
    decreases tokens.len(),
{
    if tokens.len() == 0 {
        assert(bit != 0 ==> 0u8 & bit != bit) by (bit_vector);
    } else {
        let before = tokens.drop_last();
        let t = token(tokens.last());
        lemma_bit(before, bit);
        lemma_words_differ(t);
        if folded(tokens) is Ok {
            let p = folded(before)->Ok_0;
            let q = folded(tokens)->Ok_0;
            let m = p.mods;
            assert(absorbed(p, t) == folded(tokens));
            assert((bit == 1 || bit == 2 || bit == 4 || bit == 8) ==> (((m | 1) & bit == bit) == ((m
                & bit == bit) || bit == 1)) && (((m | 2) & bit == bit) == ((m & bit == bit) || bit
                == 2)) && (((m | 4) & bit == bit) == ((m & bit == bit) || bit == 4)) && (((m | 8)
                & bit == bit) == ((m & bit == bit) || bit == 8))) by (bit_vector);
            assert(q.mods & bit == bit <==> (m & bit == bit || names(t, bit)));
            if exists|i: int| 0 <= i < before.len() && names(token(#[trigger] before[i]), bit) {
                let i = choose|i: int|
                    0 <= i < before.len() && names(token(#[trigger] before[i]), bit);
                assert(tokens[i] == before[i]);
            }
            if names(t, bit) {
                assert(tokens[tokens.len() - 1] == tokens.last());
            }
            if exists|i: int| 0 <= i < tokens.len() && names(token(#[trigger] tokens[i]), bit) {
                let i = choose|i: int|
                    0 <= i < tokens.len() && names(token(#[trigger] tokens[i]), bit);
                if i < before.len() {
                    assert(before[i] == tokens[i]);
                }
            }
        }
    }
}

proof fn lemma_four_bits(tokens: Seq<Seq<char>>)
    ensures
        folded(tokens) matches Ok(p) ==> p.mods < 16,
    decreases tokens.len(),
{
    if tokens.len() > 0 {
        lemma_four_bits(tokens.drop_last());
        if let Ok(p) = folded(tokens.drop_last()) {
            let m = p.mods;
            assert(m < 16 ==> (m | 1) < 16 && (m | 2) < 16 && (m | 4) < 16 && (m | 8) < 16)
                by (bit_vector);
        }
    }
}

/// An accepted combination has exactly the modifiers that its tokens name,
/// whatever its key: a bit is set just where some token names it, and there are
/// no other bits.
pub proof fn law_modifiers_are_those_of_the_tokens(text: Seq<char>, bit: u8)
    requires
        bit == 1 || bit == 2 || bit == 4 || bit == 8,
    ensures
        parsed(text) matches Ok(s) ==> (s.mods & bit == bit <==> exists|i: int|
            0 <= i < split(text, '+').len() && names(token(#[trigger] split(text, '+')[i]), bit)),
        parsed(text) matches Ok(s) ==> s.mods < 16,
{
    lemma_bit(split(text, '+'), bit);
    lemma_four_bits(split(text, '+'));
}

/// An accepted combination without modifiers among its tokens has none, and one
/// with some has some.
pub proof fn law_no_modifiers_are_made_up(text: Seq<char>)
    ensures
        parsed(text) matches Ok(s) ==> (s.mods == 0 <==> forall|i: int|
            0 <= i < split(text, '+').len() ==> {
                let t = token(#[trigger] split(text, '+')[i]);
                !names(t, 1) && !names(t, 2) && !names(t, 4) && !names(t, 8)
            }),
{
    let tokens = split(text, '+');
    lemma_no_modifier(tokens);
}

proof fn lemma_no_modifier(tokens: Seq<Seq<char>>)
    ensures
        folded(tokens) matches Ok(p) ==> (p.mods == 0 <==> forall|i: int|
            0 <= i < tokens.len() ==> {
                let t = token(#[trigger] tokens[i]);
                !names(t, 1) && !names(t, 2) && !names(t, 4) && !names(t, 8)
            }),
{
    lemma_bit(tokens, 1);
    lemma_bit(tokens, 2);
    lemma_bit(tokens, 4);
    lemma_bit(tokens, 8);
    lemma_four_bits(tokens);
    if let Ok(p) = folded(tokens) {
        let m = p.mods;
        assert(m < 16 ==> (m == 0 <==> (m & 1 != 1 && m & 2 != 2 && m & 4 != 4 && m & 8 != 8)))
            by (bit_vector);
    }
}

// ──────────────────────────────── main key ─────────────────────────────────
/// The token at `k` is the only one that names a key, and no button.
pub open spec fn is_main(tokens: Seq<Seq<char>>, k: int) -> bool {
    &&& 0 <= k < tokens.len()
    &&& !names_no_key(token(tokens[k]))
    &&& !names_a_button(token(tokens[k]))
    &&& forall|j: int|
        0 <= j < tokens.len() && j != k ==> names_no_key(token(#[trigger] tokens[j]))
}

proof fn lemma_key(tokens: Seq<Seq<char>>) -> (k: int)
    ensures
        folded(tokens) matches Ok(p) ==> {
            &&& p.vk is None ==> forall|j: int|
                0 <= j < tokens.len() ==> names_no_key(token(#[trigger] tokens[j]))
            &&& p.vk is Some ==> is_main(tokens, k) && vk_of(token(tokens[k])) == p.vk
        },
    decreases tokens.len(),
{
    if tokens.len() == 0 {
        0
    } else {
        let before = tokens.drop_last();
        let t = token(tokens.last());
        let k = lemma_key(before);
        if folded(tokens) is Ok {
            let p = folded(before)->Ok_0;
            assert(absorbed(p, t) == folded(tokens));
            assert forall|j: int| 0 <= j < before.len() implies #[trigger] before[j]
                == tokens[j] by {}
            if names_no_key(t) {
                if p.vk is None {
                    assert forall|j: int| 0 <= j < tokens.len() implies names_no_key(
                        token(#[trigger] tokens[j]),
                    ) by {
                        if j < before.len() {
                            assert(before[j] == tokens[j]);
                        }
                    }
                } else {
                    assert(before[k] == tokens[k]);
                    assert forall|j: int| 0 <= j < tokens.len() && j != k implies names_no_key(
                        token(#[trigger] tokens[j]),
                    ) by {
                        if j < before.len() {
                            assert(before[j] == tokens[j]);
                        }
                    }
                }
                k
            } else {
                let n = tokens.len() - 1;
                assert(tokens[n] == tokens.last());
                law_words_are_known(t);
                assert forall|j: int| 0 <= j < tokens.len() && j != n implies names_no_key(
                    token(#[trigger] tokens[j]),
                ) by {
                    assert(before[j] == tokens[j]);
                }
                n
            }
        } else {
            k
        }
    }
}

/// An accepted combination has one key: its code is that of the one token that
/// names a key.
pub proof fn law_the_key_is_that_of_its_token(text: Seq<char>) -> (k: int)
    requires
        parsed(text) is Ok,
    ensures
        is_main(split(text, '+'), k),
        vk_of(token(split(text, '+')[k])) == Some(parsed(text)->Ok_0.vk),
{
    lemma_key(split(text, '+'))
}

proof fn lemma_fold_keeps_the_key(tokens: Seq<Seq<char>>, k: int)
    requires
        is_main(tokens, k),
        vk_of(token(tokens[k])) is Some,
    ensures
        folded(tokens) matches Ok(p) && p.vk == vk_of(token(tokens[k])),
    decreases tokens.len(),
{
    let before = tokens.drop_last();
    let t = token(tokens.last());
    law_words_are_known(t);
    assert(tokens[tokens.len() - 1] == tokens.last());
    if k == tokens.len() - 1 {
        assert forall|j: int| 0 <= j < before.len() implies names_no_key(
            token(#[trigger] before[j]),
        ) by {
            assert(before[j] == tokens[j]);
        }
        lemma_fold_of_modifiers(before);
    } else {
        assert(before[k] == tokens[k]);
        assert forall|j: int| 0 <= j < before.len() && j != k implies names_no_key(
            token(#[trigger] before[j]),
        ) by {
            assert(before[j] == tokens[j]);
        }
        lemma_fold_keeps_the_key(before, k);
    }
}

proof fn lemma_fold_of_modifiers(tokens: Seq<Seq<char>>)
    requires
        forall|j: int| 0 <= j < tokens.len() ==> names_no_key(token(#[trigger] tokens[j])),
    ensures
        folded(tokens) matches Ok(p) && p.vk is None,
    decreases tokens.len(),
{
    if tokens.len() > 0 {
        let before = tokens.drop_last();
        assert forall|j: int| 0 <= j < before.len() implies names_no_key(
            token(#[trigger] before[j]),
        ) by {
            assert(before[j] == tokens[j]);
        }
        assert(tokens[tokens.len() - 1] == tokens.last());
        lemma_fold_of_modifiers(before);
    }
}

/// The code of a letter or a digit.
pub open spec fn types(vk: u16) -> bool {
    48 <= vk <= 57 || 65 <= vk <= 90
}

/// A combination with one key that has a code, and otherwise modifiers, is
/// accepted, as that key, unless the key is a letter or a digit and no token is
/// a modifier; then it is told so.
pub proof fn law_sound_combinations_are_accepted(text: Seq<char>, k: int)
    requires
        is_main(split(text, '+'), k),
        vk_of(token(split(text, '+')[k])) is Some,
    ensures
        ({
            let tokens = split(text, '+');
            let vk = vk_of(token(tokens[k]))->0;
            let bare = forall|i: int|
                0 <= i < tokens.len() ==> {
                    let t = token(#[trigger] tokens[i]);
                    !names(t, 1) && !names(t, 2) && !names(t, 4) && !names(t, 8)
                };
            &&& !types(vk) || !bare ==> (parsed(text) matches Ok(s) && s.vk == vk)
            &&& types(vk) && bare ==> parsed(text) == Err::<Spec, Seq<char>>(
                "字母/数字主键必须搭配至少一个修饰键（ctrl/alt/shift/win）"@,
            )
        }),
{
    lemma_fold_keeps_the_key(split(text, '+'), k);
    lemma_no_modifier(split(text, '+'));
}

// ───────────────────────────────── refusals ────────────────────────────────
proof fn lemma_error_stays(tokens: Seq<Seq<char>>, n: int)
    requires
        0 <= n <= tokens.len(),
        folded(tokens.take(n)) is Err,
    ensures
        folded(tokens) == folded(tokens.take(n)),
    decreases tokens.len(),
{
    if n < tokens.len() {
        assert(tokens.drop_last().take(n) =~= tokens.take(n));
        lemma_error_stays(tokens.drop_last(), n);
    } else {
        assert(tokens.take(n) =~= tokens);
    }
}

/// The first token that names a key decides: a button is not supported, a word
/// without a code is not known and is quoted.
pub proof fn law_the_first_key_must_be_known(text: Seq<char>, i: int)
    requires
        0 <= i < split(text, '+').len(),
        forall|j: int| 0 <= j < i ==> names_no_key(token(#[trigger] split(text, '+')[j])),
        !names_no_key(token(split(text, '+')[i])),
    ensures
        names_a_button(token(split(text, '+')[i])) ==> parsed(text) == Err::<Spec, Seq<char>>(
            "鼠标侧键暂不支持：宿主 register_hotkey 仅支持键盘（鼠标监听计划由宿主 API 提供）"@,
        ),
        !names_a_button(token(split(text, '+')[i])) && vk_of(token(split(text, '+')[i])) is None
            ==> parsed(text) == Err::<Spec, Seq<char>>(
            "无法识别的键名: "@ + token(split(text, '+')[i]),
        ),
{
    let tokens = split(text, '+');
    let head = tokens.take(i);
    assert forall|j: int| 0 <= j < head.len() implies names_no_key(token(#[trigger] head[j])) by {
        assert(head[j] == tokens[j]);
    }
    lemma_fold_of_modifiers(head);
    law_words_are_known(token(tokens[i]));
    assert(tokens.take(i + 1).drop_last() =~= head);
    assert(tokens.take(i + 1).last() == tokens[i]);
    if folded(tokens.take(i + 1)) is Err {
        lemma_error_stays(tokens, i + 1);
    }
}

/// A second token that names a key is refused: a button is not supported, any
/// other is one key too many and is quoted.
pub proof fn law_a_second_key_is_refused(text: Seq<char>, k: int, i: int)
    requires
        0 <= k < i < split(text, '+').len(),
        is_main(split(text, '+').take(i), k),
        vk_of(token(split(text, '+')[k])) is Some,
        !names_no_key(token(split(text, '+')[i])),
    ensures
        names_a_button(token(split(text, '+')[i])) ==> parsed(text) == Err::<Spec, Seq<char>>(
            "鼠标侧键暂不支持：宿主 register_hotkey 仅支持键盘（鼠标监听计划由宿主 API 提供）"@,
        ),
        !names_a_button(token(split(text, '+')[i])) ==> parsed(text) == Err::<Spec, Seq<char>>(
            "快捷键只能有一个主键（多余 token: "@ + token(split(text, '+')[i]) + "）"@,
        ),
{
    let tokens = split(text, '+');
    let head = tokens.take(i);
    assert(head[k] == tokens[k]);
    lemma_fold_keeps_the_key(head, k);
    law_words_are_known(token(tokens[i]));
    assert(tokens.take(i + 1).drop_last() =~= head);
    assert(tokens.take(i + 1).last() == tokens[i]);
    lemma_error_stays(tokens, i + 1);
}

/// Modifiers alone are told that a key is missing.
pub proof fn law_a_missing_key_is_told(text: Seq<char>)
    requires
        forall|j: int|
            0 <= j < split(text, '+').len() ==> names_no_key(token(#[trigger] split(text, '+')[j])),
    ensures
        parsed(text) == Err::<Spec, Seq<char>>("快捷键缺少主键（如 f8、a、space）"@),
{
    lemma_fold_of_modifiers(split(text, '+'));
}

/// Letters and digits are the keys that type.
pub proof fn law_typing_keys_are_letters_and_digits(vk: u16)
    ensures
        is_typing_key(vk) <==> types(vk),
{
}

} // verus!
