//! Hotkey text such as `Ctrl+Alt+1`, and the hotkey message loop.

use vstd::prelude::*;
use crate::capture::CaptureKind;
use crate::error::{result_view, Error, ErrorView};
use crate::text::{
    ascii_lower, chars_eq_str, chars_of, chars_to_ascii_lowercase, split_chars, split_on,
    string_from_chars, trim, trim_chars,
};

verus! {

broadcast use vstd::string::group_string_axioms;

/// `MOD_ALT`.
pub const MOD_ALT: u32 = 0x0001;
/// `MOD_CONTROL`.
pub const MOD_CONTROL: u32 = 0x0002;
/// `MOD_SHIFT`.
pub const MOD_SHIFT: u32 = 0x0004;
/// `MOD_WIN`.
pub const MOD_WIN: u32 = 0x0008;
/// `MOD_NOREPEAT`: a held key does not repeat the hotkey.
pub const MOD_NOREPEAT: u32 = 0x4000;
/// `WM_HOTKEY`.
pub const WM_HOTKEY: u32 = 0x0312;

/// Number of a function key: `1` to `12`, without leading zeros.
pub open spec fn function_key_number(d: Seq<char>) -> Option<int> {
    if d.len() == 1 && '1' <= d[0] <= '9' {
        Some(d[0] as int - '0' as int)
    } else if d.len() == 2 && d[0] == '1' && '0' <= d[1] <= '2' {
        Some(10 + (d[1] as int - '0' as int))
    } else {
        None
    }
}

/// The virtual-key code of a lowercase key name: `0`–`9`, `a`–`z`, `f1`–`f12`.
pub open spec fn spec_vk(name: Seq<char>) -> Option<u16> {
    if name.len() == 1 && '0' <= name[0] <= '9' {
        Some((0x30 + (name[0] as int - '0' as int)) as u16)
    } else if name.len() == 1 && 'a' <= name[0] <= 'z' {
        Some((0x41 + (name[0] as int - 'a' as int)) as u16)
    } else if name.len() >= 2 && name[0] == 'f' && function_key_number(name.drop_first()) is Some {
        Some((0x6F + function_key_number(name.drop_first())->0) as u16)
    } else {
        None
    }
}

/// The virtual-key code of a key name, or the error for an unsupported one.
pub open spec fn spec_parse_vk(name: Seq<char>) -> Result<u16, ErrorView> {
    match spec_vk(name) {
        Some(code) => Ok(code),
        None => Err(ErrorView::UnsupportedKey(name)),
    }
}

fn parse_vk_chars(v: &Vec<char>) -> (r: Result<u16, Error>)
    ensures
        result_view(r) == spec_parse_vk(v@),
{
    if v.len() == 1 && '0' <= v[0] && v[0] <= '9' {
        return Ok((0x30 + (v[0] as u32 - '0' as u32)) as u16);
    }
    if v.len() == 1 && 'a' <= v[0] && v[0] <= 'z' {
        return Ok((0x41 + (v[0] as u32 - 'a' as u32)) as u16);
    }
    if v.len() >= 2 && v[0] == 'f' {
        let ghost d = v@.drop_first();
        if v.len() == 2 && '1' <= v[1] && v[1] <= '9' {
            assert(d.len() == 1 && d[0] == v@[1]);
            return Ok((0x6F + (v[1] as u32 - '0' as u32)) as u16);
        }
        if v.len() == 3 && v[1] == '1' && '0' <= v[2] && v[2] <= '2' {
            assert(d.len() == 2 && d[0] == v@[1] && d[1] == v@[2]);
            return Ok((0x6F + 10 + (v[2] as u32 - '0' as u32)) as u16);
        }
        assert(function_key_number(d) is None);
    }
    Err(Error::UnsupportedKey(string_from_chars(v)))
}

/// The virtual-key code of a lowercase key name.
pub fn parse_vk(value: &str) -> (r: Result<u16, Error>)
    ensures
        result_view(r) == spec_parse_vk(value@),
{
    let v = chars_of(value);
    parse_vk_chars(&v)
}

/// The modifier flag a key name stands for, if it names a modifier.
pub open spec fn modifier_flag(name: Seq<char>) -> Option<u32> {
    if name == "ctrl"@ || name == "control"@ {
        Some(MOD_CONTROL)
    } else if name == "alt"@ {
        Some(MOD_ALT)
    } else if name == "shift"@ {
        Some(MOD_SHIFT)
    } else if name == "super"@ || name == "win"@ || name == "meta"@ {
        Some(MOD_WIN)
    } else {
        None
    }
}

/// A part of the hotkey text as it is read: trimmed and lowercased.
pub open spec fn normalized_part(part: Seq<char>) -> Seq<char> {
    ascii_lower(trim(part))
}

/// The modifier flags and the main key after reading the first `n` parts:
/// modifiers accumulate, a later key replaces an earlier one, and the first
/// unsupported key name is the error.
pub open spec fn read_parts(parts: Seq<Seq<char>>, n: nat) -> Result<(u32, Option<u16>), ErrorView>
    decreases n,
{
    if n == 0 {
        Ok((0u32, None))
    } else {
        match read_parts(parts, (n - 1) as nat) {
            Err(e) => Err(e),
            Ok((mods, key)) => {
                let name = normalized_part(parts[n - 1]);
                match modifier_flag(name) {
                    Some(flag) => Ok((mods | flag, key)),
                    None => match spec_parse_vk(name) {
                        Ok(code) => Ok((mods, Some(code))),
                        Err(e) => Err(e),
                    },
                }
            },
        }
    }
}

proof fn lemma_read_parts_error_stays(parts: Seq<Seq<char>>, k: nat, n: nat)
    requires
        k <= n,
        read_parts(parts, k) is Err,
    ensures
        read_parts(parts, n) == read_parts(parts, k),
    decreases n - k,
{
    if n > k {
        lemma_read_parts_error_stays(parts, k, (n - 1) as nat);
    }
}

/// The capture kind that hotkey number `id` triggers.
pub open spec fn kind_for_id(id: i32) -> Option<CaptureKind> {
    if id == 1 {
        Some(CaptureKind::FullScreen)
    } else if id == 2 {
        Some(CaptureKind::CurrentWindow)
    } else if id == 3 {
        Some(CaptureKind::SquareRegion)
    } else {
        None
    }
}

/// What a hotkey text registered as number `id` means: its modifier flags
/// with `MOD_NOREPEAT`, its main key and the capture kind; or why it is
/// refused, checked in this order: an unsupported key name, no modifier, an
/// unknown number, no main key.
pub open spec fn spec_parse_hotkey(value: Seq<char>, id: i32) -> Result<(u32, u16, CaptureKind), ErrorView> {
    finish_hotkey(value, id, read_parts(split_on(value, '+'), split_on(value, '+').len()))
}

/// The hotkey once its parts are read.
pub open spec fn finish_hotkey(
    value: Seq<char>,
    id: i32,
    read: Result<(u32, Option<u16>), ErrorView>,
) -> Result<(u32, u16, CaptureKind), ErrorView> {
    match read {
        Err(e) => Err(e),
        Ok((mods, key)) => if mods == 0 {
            Err(ErrorView::HotkeyNeedsModifier(value))
        } else {
            match kind_for_id(id) {
                None => Err(ErrorView::UnknownHotkeyId(id)),
                Some(kind) => match key {
                    None => Err(ErrorView::HotkeyMissingKey),
                    Some(k) => Ok((mods | MOD_NOREPEAT, k, kind)),
                },
            }
        },
    }
}

fn modifier_flag_exec(name: &Vec<char>) -> (r: Option<u32>)
    ensures
        r == modifier_flag(name@),
{
    if chars_eq_str(name, "ctrl") || chars_eq_str(name, "control") {
        Some(MOD_CONTROL)
    } else if chars_eq_str(name, "alt") {
        Some(MOD_ALT)
    } else if chars_eq_str(name, "shift") {
        Some(MOD_SHIFT)
    } else if chars_eq_str(name, "super") || chars_eq_str(name, "win") || chars_eq_str(name, "meta") {
        Some(MOD_WIN)
    } else {
        None
    }
}

/// Reads a hotkey text registered as number `id`.
pub fn parse_hotkey(value: &str, id: i32) -> (r: Result<(u32, u16, CaptureKind), Error>)
    ensures
        result_view(r) == spec_parse_hotkey(value@, id),
{
    let v = chars_of(value);
    let parts = split_chars(&v, '+');
    let ghost sparts = split_on(value@, '+');
    let mut modifiers: u32 = 0;
    let mut key: Option<u16> = None;
    let mut i: usize = 0;
    while i < parts.len()
        invariant
            i <= parts@.len(),
            sparts == split_on(value@, '+'),
            parts@.len() == sparts.len(),
            forall|k: int| 0 <= k < parts@.len() ==> #[trigger] parts@[k]@ == sparts[k],
            read_parts(sparts, i as nat) == Ok::<(u32, Option<u16>), ErrorView>((modifiers, key)),
        decreases parts@.len() - i,
    {
        let trimmed = trim_chars(&parts[i]);
        let name = chars_to_ascii_lowercase(&trimmed);
        assert(name@ == normalized_part(sparts[i as int]));
        match modifier_flag_exec(&name) {
            Some(flag) => {
                modifiers = modifiers | flag;
            },
            None => match parse_vk_chars(&name) {
                Ok(code) => {
                    key = Some(code);
                },
                Err(e) => {
                    proof {
                        assert(read_parts(sparts, (i + 1) as nat) == Err::<(u32, Option<u16>), ErrorView>(e@));
                        lemma_read_parts_error_stays(sparts, (i + 1) as nat, sparts.len());
                        assert(read_parts(sparts, sparts.len()) == Err::<(u32, Option<u16>), ErrorView>(e@));
                        assert(spec_parse_hotkey(value@, id) == Err::<(u32, u16, CaptureKind), ErrorView>(e@));
                    }
                    return Err(e);
                },
            },
        }
        i = i + 1;
    }
    if modifiers == 0 {
        return Err(Error::HotkeyNeedsModifier(string_from_chars(&v)));
    }
    let kind = if id == 1 {
        CaptureKind::FullScreen
    } else if id == 2 {
        CaptureKind::CurrentWindow
    } else if id == 3 {
        CaptureKind::SquareRegion
    } else {
        return Err(Error::UnknownHotkeyId(id));
    };
    match key {
        None => Err(Error::HotkeyMissingKey),
        Some(k) => Ok((modifiers | MOD_NOREPEAT, k, kind)),
    }
}

} // verus!
