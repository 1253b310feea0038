//! Keys whose meaning depends on the system.

use vstd::prelude::*;
use vstd::string::StrSliceExecFns;

use crate::event_loop::types::{Key, NamedKey};

verus! {

/// The key that stands for a key where command and control are swapped.
pub open spec fn swapped(key: Key) -> Key {
    match key {
        Key::Named(NamedKey::Control) => Key::Named(NamedKey::Super),
        Key::Named(NamedKey::Super) => Key::Named(NamedKey::Control),
        _ => key,
    }
}

/// Whether a key changes the meaning of others.
pub open spec fn is_modifier(key: Key) -> bool {
    key matches Key::Named(name) && name != NamedKey::Other
}

/// Swap command and control, where the system has them the other way round.
pub fn swap_cmd_ctrl(key: Key, swap: bool) -> (result: Key)
    ensures
        result == if swap {
            swapped(key)
        } else {
            key
        },
{
    if swap {
        match key {
            Key::Named(NamedKey::Control) => Key::Named(NamedKey::Super),
            Key::Named(NamedKey::Super) => Key::Named(NamedKey::Control),
            other => other,
        }
    } else {
        key
    }
}

/// Tell whether a key changes the meaning of others.
pub fn modifier(key: &Key) -> (result: bool)
    ensures
        result == is_modifier(*key),
{
    match key {
        Key::Named(name) => *name != NamedKey::Other,
        _ => false,
    }
}

/// A capital letter of ASCII as a small one, any other character as it is.
pub open spec fn lower(c: char) -> char {
    if 'A' <= c && c <= 'Z' {
        (c as u32 + 32) as char
    } else {
        c
    }
}

/// Whether a text, apart from the case of its ASCII letters, holds `part`.
pub open spec fn holds(text: Seq<char>, part: Seq<char>) -> bool {
    exists|at: int| #[trigger] part_at(text, part, at)
}

/// Whether a text, apart from the case of its ASCII letters, holds `part` at `at`.
pub open spec fn part_at(text: Seq<char>, part: Seq<char>, at: int) -> bool {
    &&& 0 <= at <= text.len() - part.len()
    &&& forall|i: int| 0 <= i < part.len() ==> lower(text[at + i]) == #[trigger] part[i]
}

/// Whether the name of the browser's platform is one of a system that has command and control
/// the other way round.
pub open spec fn names_apple(platform: Seq<char>) -> bool {
    holds(platform, "mac"@) || holds(platform, "iphone"@) || holds(platform, "ipad"@)
}

fn to_lower(c: char) -> (result: char)
    ensures
        result == lower(c),
{
    match c {
        'A' => 'a', 'B' => 'b', 'C' => 'c', 'D' => 'd', 'E' => 'e', 'F' => 'f', 'G' => 'g',
        'H' => 'h', 'I' => 'i', 'J' => 'j', 'K' => 'k', 'L' => 'l', 'M' => 'm', 'N' => 'n',
        'O' => 'o', 'P' => 'p', 'Q' => 'q', 'R' => 'r', 'S' => 's', 'T' => 't', 'U' => 'u',
        'V' => 'v', 'W' => 'w', 'X' => 'x', 'Y' => 'y', 'Z' => 'z',
        other => other,
    }
}

/// Tell whether a text, apart from the case of its ASCII letters, holds `part`.
fn contains_lower(text: &str, part: &str) -> (result: bool)
    ensures
        result == holds(text@, part@),
{
    let text_len: usize = text.unicode_len();
    let part_len: usize = part.unicode_len();
    if part_len > text_len {
        return false;
    }
    let mut at: usize = 0;
    while at <= text_len - part_len
        invariant
            text_len == text@.len(),
            part_len == part@.len(),
            part_len <= text_len,
            at <= text_len - part_len + 1,
            forall|k: int| 0 <= k < at ==> !#[trigger] part_at(text@, part@, k),
        decreases text_len - part_len + 1 - at,
    {
        let mut i: usize = 0;
        while i < part_len && to_lower(text.get_char(at + i)) == part.get_char(i)
            invariant
                text_len == text@.len(),
                part_len == part@.len(),
                part_len <= text_len,
                at <= text_len - part_len,
                i <= part_len,
                forall|k: int| 0 <= k < i ==> lower(text@[at + k]) == #[trigger] part@[k],
            ensures
                i <= part_len,
                i == part_len ==> part_at(text@, part@, at as int),
                i < part_len ==> !part_at(text@, part@, at as int),
            decreases part_len - i,
        {
            i = i + 1;
        }
        if i == part_len {
            return true;
        }
        at = at + 1;
    }
    false
}

/// Tell whether the browser's platform has command and control the other way round. `None`
/// stands for a platform that cannot be read.
pub fn is_apple_platform(platform: Option<String>) -> (result: bool)
    ensures
        result == (platform matches Some(name) && names_apple(name@)),
{
    match platform {
        Some(name) => contains_lower(name.as_str(), "mac") || contains_lower(
            name.as_str(),
            "iphone",
        ) || contains_lower(name.as_str(), "ipad"),
        None => false,
    }
}

/// Swapping command and control twice gives back the key, and a modifier stays one.
pub proof fn law_swap_twice(key: Key)
    ensures
        swapped(swapped(key)) == key,
        is_modifier(swapped(key)) == is_modifier(key),
{
}

/// Control and command change places, and every other key stays what it is.
pub proof fn law_swapped_keys(key: Key)
    ensures
        swapped(key) == Key::Named(NamedKey::Super) <==> key == Key::Named(NamedKey::Control),
        swapped(key) == Key::Named(NamedKey::Control) <==> key == Key::Named(NamedKey::Super),
        key != Key::Named(NamedKey::Control) && key != Key::Named(NamedKey::Super) ==> swapped(key)
            == key,
{
}

/// The modifiers are control, shift, command, alt and alt graph, and no others.
pub proof fn law_modifiers(key: Key)
    ensures
        is_modifier(key) <==> (key == Key::Named(NamedKey::Control) || key == Key::Named(
            NamedKey::Shift,
        ) || key == Key::Named(NamedKey::Super) || key == Key::Named(NamedKey::Alt) || key
            == Key::Named(NamedKey::AltGraph)),
{
}

/// Whether a character is the given letter, small or capital.
spec fn is_letter(c: char, small: char, capital: char) -> bool {
    c == small || c == capital
}

proof fn lemma_lower(c: char)
    ensures
        lower(c) == 'm' <==> is_letter(c, 'm', 'M'),
        lower(c) == 'a' <==> is_letter(c, 'a', 'A'),
        lower(c) == 'c' <==> is_letter(c, 'c', 'C'),
        lower(c) == 'i' <==> is_letter(c, 'i', 'I'),
        lower(c) == 'p' <==> is_letter(c, 'p', 'P'),
        lower(c) == 'h' <==> is_letter(c, 'h', 'H'),
        lower(c) == 'o' <==> is_letter(c, 'o', 'O'),
        lower(c) == 'n' <==> is_letter(c, 'n', 'N'),
        lower(c) == 'e' <==> is_letter(c, 'e', 'E'),
        lower(c) == 'd' <==> is_letter(c, 'd', 'D'),
{
}

/// A platform that says mac, iphone or ipad anywhere in its name, in small or capital letters, is one
/// of Apple.
pub proof fn law_apple_is_named(platform: Seq<char>, at: int)
    requires
        0 <= at,
        ({
            ||| {
                &&& at + 3 <= platform.len()
                &&& platform[at] == 'm' || platform[at] == 'M'
                &&& platform[at + 1] == 'a' || platform[at + 1] == 'A'
                &&& platform[at + 2] == 'c' || platform[at + 2] == 'C'
            }
            ||| {
                &&& at + 6 <= platform.len()
                &&& platform[at] == 'i' || platform[at] == 'I'
                &&& platform[at + 1] == 'p' || platform[at + 1] == 'P'
                &&& platform[at + 2] == 'h' || platform[at + 2] == 'H'
                &&& platform[at + 3] == 'o' || platform[at + 3] == 'O'
                &&& platform[at + 4] == 'n' || platform[at + 4] == 'N'
                &&& platform[at + 5] == 'e' || platform[at + 5] == 'E'
            }
            ||| {
                &&& at + 4 <= platform.len()
                &&& platform[at] == 'i' || platform[at] == 'I'
                &&& platform[at + 1] == 'p' || platform[at + 1] == 'P'
                &&& platform[at + 2] == 'a' || platform[at + 2] == 'A'
                &&& platform[at + 3] == 'd' || platform[at + 3] == 'D'
            }
        }),
    ensures
        names_apple(platform),
{
    reveal_strlit("mac");
    reveal_strlit("iphone");
    reveal_strlit("ipad");
    if at + 3 <= platform.len() && (platform[at] == 'm' || platform[at] == 'M') {
        assert(part_at(platform, "mac"@, at));
    } else if platform[at + 2] == 'h' || platform[at + 2] == 'H' {
        assert(part_at(platform, "iphone"@, at));
    } else {
        assert(part_at(platform, "ipad"@, at));
    }
}

/// A platform is one of Apple only if its name says mac, iphone or ipad somewhere, in small or capital
/// letters.
pub proof fn law_apple_by_name_only(platform: Seq<char>) -> (at: int)
    requires
        names_apple(platform),
    ensures
        0 <= at,
        ({
            ||| {
                &&& at + 3 <= platform.len()
                &&& platform[at] == 'm' || platform[at] == 'M'
                &&& platform[at + 1] == 'a' || platform[at + 1] == 'A'
                &&& platform[at + 2] == 'c' || platform[at + 2] == 'C'
            }
            ||| {
                &&& at + 6 <= platform.len()
                &&& platform[at] == 'i' || platform[at] == 'I'
                &&& platform[at + 1] == 'p' || platform[at + 1] == 'P'
                &&& platform[at + 2] == 'h' || platform[at + 2] == 'H'
                &&& platform[at + 3] == 'o' || platform[at + 3] == 'O'
                &&& platform[at + 4] == 'n' || platform[at + 4] == 'N'
                &&& platform[at + 5] == 'e' || platform[at + 5] == 'E'
            }
            ||| {
                &&& at + 4 <= platform.len()
                &&& platform[at] == 'i' || platform[at] == 'I'
                &&& platform[at + 1] == 'p' || platform[at + 1] == 'P'
                &&& platform[at + 2] == 'a' || platform[at + 2] == 'A'
                &&& platform[at + 3] == 'd' || platform[at + 3] == 'D'
            }
        }),
{
    reveal_strlit("mac");
    reveal_strlit("iphone");
    reveal_strlit("ipad");
    if holds(platform, "mac"@) {
        let part = "mac"@;
        let at = choose|at: int| #[trigger] part_at(platform, part, at);
        lemma_lower(platform[at]);
        lemma_lower(platform[at + 1]);
        lemma_lower(platform[at + 2]);
        assert(part[0] == 'm' && part[1] == 'a' && part[2] == 'c');
        at
    } else if holds(platform, "iphone"@) {
        let part = "iphone"@;
        let at = choose|at: int| #[trigger] part_at(platform, part, at);
        lemma_lower(platform[at]);
        lemma_lower(platform[at + 1]);
        lemma_lower(platform[at + 2]);
        lemma_lower(platform[at + 3]);
        lemma_lower(platform[at + 4]);
        lemma_lower(platform[at + 5]);
        assert(part[0] == 'i' && part[1] == 'p' && part[2] == 'h' && part[3] == 'o' && part[4] == 'n'
            && part[5] == 'e');
        at
    } else {
        let part = "ipad"@;
        let at = choose|at: int| #[trigger] part_at(platform, part, at);
        lemma_lower(platform[at]);
        lemma_lower(platform[at + 1]);
        lemma_lower(platform[at + 2]);
        lemma_lower(platform[at + 3]);
        assert(part[0] == 'i' && part[1] == 'p' && part[2] == 'a' && part[3] == 'd');
        at
    }
}

} // verus!
