//! Parsing of global-hotkey descriptions such as `Alt+Q` or
//! `Ctrl+Shift+F5` into the OS modifier-flag word and virtual-key code.

use vstd::prelude::*;

use crate::domain::{split_char, split_char_vec};
use crate::text::{chars_eq, str_to_chars, trim_chars, trim_spaces};

verus! {

/// The modifier bit a name contributes: `Alt`, `Ctrl`/`Control`, `Shift`
/// and `Super`/`Meta`/`Win`; zero for anything else.
pub open spec fn modifier_flag(part: Seq<char>) -> u32 {
    if part == "Alt"@ {
        0x0001
    } else if part == "Ctrl"@ || part == "Control"@ {
        0x0002
    } else if part == "Shift"@ {
        0x0004
    } else if part == "Super"@ || part == "Meta"@ || part == "Win"@ {
        0x0008
    } else {
        0
    }
}

/// Folds the `+`-separated parts: modifier names accumulate their bits,
/// and the last non-modifier part becomes the key name.
pub open spec fn hotkey_fold(parts: Seq<Seq<char>>, i: int, flags: u32, key: Seq<char>) -> (
    u32,
    Seq<char>,
)
    decreases parts.len() - i,
{
    if i < 0 || i >= parts.len() {
        (flags, key)
    } else {
        let p = trim_spaces(parts[i]);
        let f = modifier_flag(p);
        if f != 0 {
            hotkey_fold(parts, i + 1, flags | f, key)
        } else {
            hotkey_fold(parts, i + 1, flags, p)
        }
    }
}

/// The virtual-key code of a key name: a letter's uppercase code, a
/// digit's own code, or one of the named function and control keys.
pub open spec fn vk_of(key: Seq<char>) -> Option<u32> {
    if key.len() == 1 {
        let c = key[0];
        if 'a' <= c <= 'z' {
            Some(((c as u32) - 32) as u32)
        } else if 'A' <= c <= 'Z' {
            Some(c as u32)
        } else if '0' <= c <= '9' {
            Some(c as u32)
        } else {
            None
        }
    } else if key == "F1"@ {
        Some(0x70)
    } else if key == "F2"@ {
        Some(0x71)
    } else if key == "F3"@ {
        Some(0x72)
    } else if key == "F4"@ {
        Some(0x73)
    } else if key == "F5"@ {
        Some(0x74)
    } else if key == "F6"@ {
        Some(0x75)
    } else if key == "F7"@ {
        Some(0x76)
    } else if key == "F8"@ {
        Some(0x77)
    } else if key == "F9"@ {
        Some(0x78)
    } else if key == "F10"@ {
        Some(0x79)
    } else if key == "F11"@ {
        Some(0x7A)
    } else if key == "F12"@ {
        Some(0x7B)
    } else if key == "Space"@ {
        Some(0x20)
    } else if key == "Enter"@ {
        Some(0x0D)
    } else if key == "Tab"@ {
        Some(0x09)
    } else if key == "Escape"@ {
        Some(0x1B)
    } else {
        None
    }
}

/// What `parse_hotkey` yields: the modifier word (always carrying the
/// no-repeat bit) and the key code, or nothing when the key name is
/// unknown or no modifier was named.
pub open spec fn spec_parse_hotkey(s: Seq<char>) -> Option<(u32, u32)> {
    let parts = split_char(s, '+');
    let folded = hotkey_fold(parts, 0, 0x4000, Seq::empty());
    match vk_of(folded.1) {
        None => None,
        Some(vk) => if folded.0 & 0x000F == 0 {
            None
        } else {
            Some((folded.0, vk))
        },
    }
}

/// Looks up the modifier bit of a trimmed part.
fn modifier_flag_exec(p: &Vec<char>) -> (f: u32)
    ensures
        f == modifier_flag(p@),
{
    if chars_eq(p, &str_to_chars("Alt")) {
        0x0001
    } else if chars_eq(p, &str_to_chars("Ctrl")) || chars_eq(p, &str_to_chars("Control")) {
        0x0002
    } else if chars_eq(p, &str_to_chars("Shift")) {
        0x0004
    } else if chars_eq(p, &str_to_chars("Super")) || chars_eq(p, &str_to_chars("Meta")) || chars_eq(
        p,
        &str_to_chars("Win"),
    ) {
        0x0008
    } else {
        0
    }
}

/// Looks up the virtual-key code of a key name.
fn vk_exec(key: &Vec<char>) -> (r: Option<u32>)
    ensures
        r == vk_of(key@),
{
    if key.len() == 1 {
        let c = key[0];
        if c >= 'a' && c <= 'z' {
            Some((c as u32) - 32)
        } else if c >= 'A' && c <= 'Z' {
            Some(c as u32)
        } else if c >= '0' && c <= '9' {
            Some(c as u32)
        } else {
            None
        }
    } else if chars_eq(key, &str_to_chars("F1")) {
        Some(0x70)
    } else if chars_eq(key, &str_to_chars("F2")) {
        Some(0x71)
    } else if chars_eq(key, &str_to_chars("F3")) {
        Some(0x72)
    } else if chars_eq(key, &str_to_chars("F4")) {
        Some(0x73)
    } else if chars_eq(key, &str_to_chars("F5")) {
        Some(0x74)
    } else if chars_eq(key, &str_to_chars("F6")) {
        Some(0x75)
    } else if chars_eq(key, &str_to_chars("F7")) {
        Some(0x76)
    } else if chars_eq(key, &str_to_chars("F8")) {
        Some(0x77)
    } else if chars_eq(key, &str_to_chars("F9")) {
        Some(0x78)
    } else if chars_eq(key, &str_to_chars("F10")) {
        Some(0x79)
    } else if chars_eq(key, &str_to_chars("F11")) {
        Some(0x7A)
    } else if chars_eq(key, &str_to_chars("F12")) {
        Some(0x7B)
    } else if chars_eq(key, &str_to_chars("Space")) {
        Some(0x20)
    } else if chars_eq(key, &str_to_chars("Enter")) {
        Some(0x0D)
    } else if chars_eq(key, &str_to_chars("Tab")) {
        Some(0x09)
    } else if chars_eq(key, &str_to_chars("Escape")) {
        Some(0x1B)
    } else {
        None
    }
}

/// Parses a hotkey description: `+`-separated modifier names (`Alt`,
/// `Ctrl`, `Shift`, `Super` and synonyms) around one key name — a letter,
/// a digit, a function key or a named control key.  Fails when the key is
/// unknown or when no modifier was given; the returned modifier word
/// always carries the no-repeat bit.
pub fn parse_hotkey(s: &str) -> (r: Option<(u32, u32)>)
    ensures
        r == spec_parse_hotkey(s@),
{
    let chars = str_to_chars(s);
    let parts = split_char_vec(&chars, '+');
    let ghost pm = parts@.map_values(|p: Vec<char>| p@);
    let mut flags: u32 = 0x4000;
    let mut key: Vec<char> = Vec::new();
    let mut i: usize = 0;
    while i < parts.len()
        invariant
            0 <= i <= parts@.len(),
            pm == parts@.map_values(|p: Vec<char>| p@),
            hotkey_fold(pm, 0, 0x4000, Seq::empty()) == hotkey_fold(pm, i as int, flags, key@),
        decreases parts@.len() - i,
    {
        let p = trim_chars(&parts[i]);
        proof {
            assert(p@ == trim_spaces(pm[i as int]));
        }
        let f = modifier_flag_exec(&p);
        if f != 0 {
            flags = flags | f;
        } else {
            key = p;
        }
        i += 1;
    }
    match vk_exec(&key) {
        None => None,
        Some(vk) => {
            if flags & 0x000F == 0 {
                None
            } else {
                Some((flags, vk))
            }
        },
    }
}

} // verus!
