//! What holds of every text: case, white space, parts, numerals, paths.
use crate::json::{bool_spelled, is_blank, stripped_end, stripped_start};
use crate::text::{
    all_digits, decimal, digits_value, file_name_of, hex_digits, is_digit, is_path_sep, is_white,
    lemma_decimal_digits, lemma_split_nonempty, lower, lowered, signed_decimal, split, trimmed,
    trimmed_end, trimmed_start, unsigned_value,
};
use crate::trace::module_name;
use vstd::arithmetic::power::{lemma_pow0, pow};
use vstd::prelude::*;

verus! {

// ─────────────────────────────── characters ────────────────────────────────
/// Lower case moves the letters `A` to `Z` up by 32 and leaves every other
/// character; a text is lowered character by character.
pub proof fn law_case_is_folded_in_place(s: Seq<char>, i: int)
    requires
        0 <= i < s.len(),
    ensures
        lowered(s).len() == s.len(),
        65 <= s[i] as u32 <= 90 ==> lowered(s)[i] as u32 == s[i] as u32 + 32,
        !(65 <= s[i] as u32 <= 90) ==> lowered(s)[i] == s[i],
{
    assert(lowered(s)[i] == lower(s[i]));
}

/// The code points that count as white space.
pub proof fn law_white_space_is_known_by_code(c: char)
    ensures
        is_white(c) <==> {
            let n = c as u32;
            9 <= n <= 13 || n == 32 || n == 0x85 || n == 0xa0 || n == 0x1680 || 0x2000 <= n
                <= 0x200a || n == 0x2028 || n == 0x2029 || n == 0x202f || n == 0x205f || n == 0x3000
        },
{
}

proof fn lemma_leading(s: Seq<char>) -> (i: int)
    ensures
        0 <= i <= s.len(),
        trimmed_start(s) == s.skip(i),
        forall|k: int| 0 <= k < i ==> is_white(#[trigger] s[k]),
        i < s.len() ==> !is_white(s[i]),
    decreases s.len(),
{
    if s.len() > 0 && is_white(s.first()) {
        let rest = s.drop_first();
        let j = lemma_leading(rest);
        assert(rest.skip(j) =~= s.skip(j + 1));
        assert forall|k: int| 0 <= k < j + 1 implies is_white(#[trigger] s[k]) by {
            if k > 0 {
                assert(rest[k - 1] == s[k]);
            }
        }
        if j < rest.len() {
            assert(rest[j] == s[j + 1]);
        }
        j + 1
    } else {
        assert(s.skip(0) =~= s);
        0
    }
}

proof fn lemma_trailing(s: Seq<char>) -> (j: int)
    ensures
        0 <= j <= s.len(),
        trimmed_end(s) == s.take(j),
        forall|k: int| j <= k < s.len() ==> is_white(#[trigger] s[k]),
        j > 0 ==> !is_white(s[j - 1]),
    decreases s.len(),
{
    if s.len() > 0 && is_white(s.last()) {
        let rest = s.drop_last();
        let j = lemma_trailing(rest);
        assert(rest.take(j) =~= s.take(j));
        assert forall|k: int| j <= k < s.len() implies is_white(#[trigger] s[k]) by {
            if k < rest.len() {
                assert(rest[k] == s[k]);
            }
        }
        if j > 0 {
            assert(rest[j - 1] == s[j - 1]);
        }
        j
    } else {
        assert(s.take(s.len() as int) =~= s);
        s.len() as int
    }
}

/// Trimming takes away white space at both ends, all of it and nothing else.
pub proof fn law_trimming_takes_the_ends_alone(s: Seq<char>) -> (ends: (int, int))
    ensures
        0 <= ends.0 <= ends.1 <= s.len(),
        trimmed(s) == s.subrange(ends.0, ends.1),
        forall|k: int| 0 <= k < ends.0 ==> is_white(#[trigger] s[k]),
        forall|k: int| ends.1 <= k < s.len() ==> is_white(#[trigger] s[k]),
        ends.0 < ends.1 ==> !is_white(s[ends.0]) && !is_white(s[ends.1 - 1]),
{
    let i = lemma_leading(s);
    let tail = s.skip(i);
    let j = lemma_trailing(tail);
    assert(tail.take(j) =~= s.subrange(i, i + j));
    assert forall|k: int| i + j <= k < s.len() implies is_white(#[trigger] s[k]) by {
        assert(tail[k - i] == s[k]);
    }
    if j > 0 {
        assert(tail[j - 1] == s[i + j - 1]);
        if i < s.len() {
            assert(!is_white(s[i]));
        }
    }
    (i, i + j)
}

// ────────────────────────────────── parts ──────────────────────────────────
/// Parts with the separator between them.
pub open spec fn joined(parts: Seq<Seq<char>>, sep: char) -> Seq<char>
    decreases parts.len(),
{
    if parts.len() == 0 {
        Seq::empty()
    } else if parts.len() == 1 {
        parts[0]
    } else {
        joined(parts.drop_last(), sep).push(sep) + parts.last()
    }
}

/// A text is its parts with the separators between them, and no part holds one.
pub proof fn law_parts_make_up_the_text(s: Seq<char>, sep: char)
    ensures
        split(s, sep).len() >= 1,
        joined(split(s, sep), sep) == s,
        forall|p: int, i: int|
            0 <= p < split(s, sep).len() && 0 <= i < split(s, sep)[p].len() ==> #[trigger] split(
                s,
                sep,
            )[p][i] != sep,
    decreases s.len(),
{
    lemma_split_nonempty(s, sep);
    let all = split(s, sep);
    if s.len() == 0 {
        assert(joined(all, sep) =~= s);
    } else {
        let shorter = s.drop_last();
        let parts = split(shorter, sep);
        law_parts_make_up_the_text(shorter, sep);
        assert(s =~= shorter.push(s.last()));
        if s.last() == sep {
            assert(all.drop_last() =~= parts);
            assert(joined(all, sep) =~= s);
            assert forall|p: int, i: int|
                0 <= p < all.len() && 0 <= i < all[p].len() implies #[trigger] all[p][i] != sep by {
                if p < parts.len() {
                    assert(all[p] == parts[p]);
                    assert(parts[p][i] != sep);
                }
            }
        } else {
            let last = parts.last();
            assert(all.drop_last() =~= parts.drop_last());
            assert(all.last() == last.push(s.last()));
            if parts.len() == 1 {
                assert(joined(all, sep) =~= s);
            } else {
                assert(joined(all, sep) =~= s);
            }
            assert forall|p: int, i: int|
                0 <= p < all.len() && 0 <= i < all[p].len() implies #[trigger] all[p][i] != sep by {
                if p < parts.len() - 1 {
                    assert(all[p] == parts[p]);
                    assert(parts[p][i] != sep);
                } else if i < last.len() {
                    assert(parts[p][i] != sep);
                }
            }
        }
    }
}

// ───────────────────────────────── numerals ────────────────────────────────
/// A digit more makes a value ten times as large, plus the digit; no digits
/// make nothing.
pub proof fn law_digits_count_by_place(s: Seq<char>, c: char)
    requires
        is_digit(c),
    ensures
        48 <= c as u32 <= 57,
        digits_value(Seq::<char>::empty()) == 0,
        digits_value(s.push(c)) == 10 * digits_value(s) + (c as u32 - 48),
{
    assert(s.push(c).drop_last() =~= s);
}

/// Leading zeros change no value.
pub proof fn law_leading_zeros_change_nothing(s: Seq<char>)
    ensures
        digits_value(seq!['0'] + s) == digits_value(s),
    decreases s.len(),
{
    let z = seq!['0'] + s;
    if s.len() == 0 {
        assert(z.drop_last() =~= Seq::<char>::empty());
        assert(digits_value(z.drop_last()) == 0);
    } else {
        assert(z.drop_last() =~= seq!['0'] + s.drop_last());
        law_leading_zeros_change_nothing(s.drop_last());
    }
}

/// A number is read exactly from one or more digits, behind a plus sign or not,
/// whose value is at most the limit; it is that value.
pub proof fn law_only_numerals_are_read(s: Seq<char>, max: nat)
    ensures
        unsigned_value(Seq::<char>::empty(), max) is None,
        unsigned_value(seq!['+'], max) is None,
        s.len() > 0 && (forall|i: int| 0 <= i < s.len() ==> '0' <= #[trigger] s[i] <= '9')
            && digits_value(s) <= max ==> unsigned_value(s, max) == Some(digits_value(s))
            && unsigned_value(seq!['+'] + s, max) == Some(digits_value(s)),
        s.len() > 0 && (forall|i: int| 0 <= i < s.len() ==> '0' <= #[trigger] s[i] <= '9')
            && digits_value(s) > max ==> unsigned_value(s, max) is None && unsigned_value(
            seq!['+'] + s,
            max,
        ) is None,
        forall|i: int|
            0 <= i < s.len() && !is_digit(#[trigger] s[i]) && (i > 0 || s[i] != '+')
                ==> unsigned_value(s, max) is None,
{
    assert((seq!['+'] + s).skip(1) =~= s);
    assert(seq!['+'].skip(1) =~= Seq::<char>::empty());
    if s.len() > 0 && (forall|i: int|
        0 <= i < s.len() ==> '0' <= #[trigger] s[i] <= '9') {
        assert('0' <= s[0]);
        assert(all_digits(s));
    }
    assert forall|i: int|
        0 <= i < s.len() && !is_digit(#[trigger] s[i]) && (i > 0 || s[i] != '+') implies unsigned_value(
        s,
        max,
    ) is None by {
        if s[0] == '+' {
            assert(s.skip(1)[i - 1] == s[i]);
        }
    }
}

/// A numeral has digits only and no leading zero, and zero is one digit; what
/// it denotes is the number. A negative number has a minus sign in front.
pub proof fn law_numerals_are_shortest(n: nat)
    ensures
        forall|i: int|
            0 <= i < decimal(n).len() ==> 48 <= (#[trigger] decimal(n)[i]) as u32 <= 57,
        digits_value(decimal(n)) == n,
        n > 0 ==> decimal(n)[0] != '0',
        decimal(0) == seq!['0'],
        signed_decimal(n as int) == decimal(n),
        n > 0 ==> signed_decimal(-n) == seq!['-'] + decimal(n),
    decreases n,
{
    lemma_decimal_digits(n);
    if n >= 10 {
        law_numerals_are_shortest(n / 10);
        lemma_decimal_digits(n / 10);
        assert(decimal(n)[0] == decimal(n / 10)[0]);
    }
}

/// The value of hexadecimal digits in lower case.
pub open spec fn hex_value(s: Seq<char>) -> int
    decreases s.len(),
{
    if s.len() == 0 {
        0
    } else {
        16 * hex_value(s.drop_last()) + (if 48 <= s.last() as u32 <= 57 {
            s.last() as u32 - 48
        } else {
            s.last() as u32 - 87
        })
    }
}

/// A number's hexadecimal digits are as many as asked for, in lower case, and
/// denote the number.
pub proof fn law_hex_digits_denote_the_number(n: nat, width: nat)
    requires
        n < pow(16, width),
    ensures
        hex_digits(n, width).len() == width,
        hex_value(hex_digits(n, width)) == n,
        forall|i: int|
            0 <= i < width ==> {
                let c = (#[trigger] hex_digits(n, width)[i]) as u32;
                48 <= c <= 57 || 97 <= c <= 102
            },
    decreases width,
{
    if width == 0 {
        lemma_pow0(16);
    } else {
        let w = (width - 1) as nat;
        vstd::arithmetic::power::lemma_pow_adds(16, w, 1);
        vstd::arithmetic::power::lemma_pow1(16);
        assert(n / 16 < pow(16, w));
        law_hex_digits_denote_the_number(n / 16, w);
        let head = hex_digits(n / 16, w);
        let all = hex_digits(n, width);
        assert(all.drop_last() =~= head);
        assert forall|i: int| 0 <= i < width implies {
            let c = (#[trigger] all[i]) as u32;
            48 <= c <= 57 || 97 <= c <= 102
        } by {
            if i < w {
                assert(all[i] == head[i]);
            }
        }
    }
}

// ────────────────────────────────── paths ──────────────────────────────────
/// A file's name is what follows the last separator, whole: it holds none, and
/// what stands before it is nothing or ends in one.
pub proof fn law_a_file_name_follows_the_last_separator(path: Seq<char>, backslash: bool) -> (n:
    int)
    ensures
        0 <= n <= path.len(),
        file_name_of(path, backslash) == path.skip(n),
        n > 0 ==> path[n - 1] == '/' || (backslash && path[n - 1] == '\\'),
        forall|i: int|
            n <= i < path.len() ==> (#[trigger] path[i]) != '/' && !(backslash && path[i] == '\\'),
    decreases path.len(),
{
    if path.len() == 0 || is_path_sep(path.last(), backslash) {
        assert(path.skip(path.len() as int) =~= Seq::<char>::empty());
        path.len() as int
    } else {
        let rest = path.drop_last();
        let n = law_a_file_name_follows_the_last_separator(rest, backslash);
        assert(rest.skip(n).push(path.last()) =~= path.skip(n));
        assert forall|i: int| n <= i < path.len() implies (#[trigger] path[i]) != '/' && !(backslash
            && path[i] == '\\') by {
            if i < rest.len() {
                assert(rest[i] == path[i]);
            }
        }
        n
    }
}

/// A module goes by its file's name; where no file is known, it is unknown.
pub proof fn law_modules_go_by_their_file(path: &str)
    ensures
        module_name(Some(path)) == file_name_of(path@, true),
        module_name(None) == "<unknown>"@,
{
}

// ──────────────────────────────── switches ─────────────────────────────────
proof fn lemma_blank_before(a: Seq<char>, s: Seq<char>)
    requires
        forall|i: int| 0 <= i < a.len() ==> is_blank(#[trigger] a[i]),
        s.len() > 0,
        !is_blank(s[0]),
    ensures
        stripped_start(a + s) == s,
    decreases a.len(),
{
    if a.len() == 0 {
        assert(a + s =~= s);
    } else {
        let rest = a.drop_first();
        assert((a + s).drop_first() =~= rest + s);
        assert((a + s).first() == a[0]);
        assert forall|i: int| 0 <= i < rest.len() implies is_blank(#[trigger] rest[i]) by {
            assert(rest[i] == a[i + 1]);
        }
        lemma_blank_before(rest, s);
    }
}

proof fn lemma_blank_behind(s: Seq<char>, b: Seq<char>)
    requires
        forall|i: int| 0 <= i < b.len() ==> is_blank(#[trigger] b[i]),
        s.len() > 0,
        !is_blank(s.last()),
    ensures
        stripped_end(s + b) == s,
    decreases b.len(),
{
    if b.len() == 0 {
        assert(s + b =~= s);
    } else {
        let rest = b.drop_last();
        assert((s + b).drop_last() =~= s + rest);
        assert((s + b).last() == b.last());
        assert forall|i: int| 0 <= i < rest.len() implies is_blank(#[trigger] rest[i]) by {
            assert(rest[i] == b[i]);
        }
        lemma_blank_behind(s, rest);
    }
}

/// A switch is spelled by one of two words, with blanks around it or not.
pub proof fn law_switches_are_spelled_in_words(a: Seq<char>, b: Seq<char>)
    requires
        forall|i: int| 0 <= i < a.len() ==> is_blank(#[trigger] a[i]),
        forall|i: int| 0 <= i < b.len() ==> is_blank(#[trigger] b[i]),
    ensures
        bool_spelled(a + "true"@ + b) == Some(true),
        bool_spelled(a + "false"@ + b) == Some(false),
{
    reveal_strlit("true");
    reveal_strlit("false");
    assert("true"@[0] == 't' && "true"@.last() == 'e' && "false"@[0] == 'f' && "false"@.last()
        == 'e');
    assert(a + "true"@ + b =~= a + ("true"@ + b));
    assert(a + "false"@ + b =~= a + ("false"@ + b));
    lemma_blank_before(a, "true"@ + b);
    lemma_blank_before(a, "false"@ + b);
    lemma_blank_behind("true"@, b);
    lemma_blank_behind("false"@, b);
}

} // verus!
