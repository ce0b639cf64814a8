//! Properties of the library as a whole, proved over the specifications that
//! the functions' contracts use.

use vstd::prelude::*;
use crate::capture::CaptureKind;
use crate::error::ErrorView;
use crate::hotkey::{
    finish_hotkey, modifier_flag, normalized_part, read_parts, spec_parse_hotkey, spec_parse_vk,
    MOD_NOREPEAT,
};
use crate::text::{ascii_lower, ascii_lower_char, split_on};
use crate::region::{RegionSelectionState, SelectorEvent, VK_ESCAPE};
use crate::pixels::{float_plane, spec_rgba16f_to_gbrpf32le, normalized_mantissa, spec_half_to_f32_bits, subnormal_shift};
use vstd::arithmetic::power2::{lemma_pow2_adds, lemma_pow2_pos, lemma_pow2_unfold, pow2, lemma2_to64};
use crate::config::{Config, KnownFolders, spec_expand_path_placeholders, spec_folder_slots, expand_first};
use crate::geometry::{
    spec_clamp_rect_to_monitor, spec_intersection, spec_rect_to_capture_rect, Point, Rect,
};
use crate::naming::{
    is_forbidden_file_char, sanitize_char, spec_file_name_at, spec_sanitize, LocalTimestamp,
};
use crate::text::{
    contains_seq, is_control_char, is_unicode_whitespace, occurs_at, replace_all, trim, trim_end,
    trim_start,
};

verus! {

/// A setting for one dynamic range wins over the general one; without it the
/// general setting applies. The same holds of the viewer program.
pub proof fn law_specific_setting_wins(c: Config, hdr: bool)
    ensures
        (if hdr { c.auto_open_hdr } else { c.auto_open_sdr }) matches Some(v) ==> c.spec_auto_open_for(hdr) == v,
        (if hdr { c.auto_open_hdr } else { c.auto_open_sdr }) is None ==> c.spec_auto_open_for(hdr) == c.auto_open,
        (if hdr { c.open_command_hdr } else { c.open_command_sdr }) matches Some(s)
            ==> c.spec_open_command_for(hdr) == Some(s@),
        (if hdr { c.open_command_hdr } else { c.open_command_sdr }) is None
            ==> c.spec_open_command_for(hdr) == crate::config::opt_view(c.open_command),
{
}

/// Default settings show a notification, open nothing automatically and name
/// no viewer program.
pub proof fn law_default_settings(c: Config, dir: Seq<char>, hdr: bool)
    requires
        c.is_default_for(dir),
    ensures
        c.show_notification,
        !c.spec_auto_open_for(hdr),
        c.spec_open_command_for(hdr) is None,
{
}

proof fn lemma_trim_start_props(s: Seq<char>)
    ensures
        trim_start(s).len() > 0 ==> !is_unicode_whitespace(trim_start(s)[0]),
        exists|k: int| 0 <= k <= s.len() && trim_start(s) == s.skip(k),
    decreases s.len(),
{
    if s.len() > 0 && is_unicode_whitespace(s[0]) {
        lemma_trim_start_props(s.drop_first());
        let k = choose|k: int| 0 <= k <= s.drop_first().len() && trim_start(s.drop_first()) == s.drop_first().skip(k);
        assert(s.drop_first().skip(k) =~= s.skip(k + 1));
    } else {
        assert(s.skip(0) =~= s);
    }
}

proof fn lemma_trim_end_props(s: Seq<char>)
    ensures
        trim_end(s).len() > 0 ==> !is_unicode_whitespace(trim_end(s).last()),
        trim_end(s).len() > 0 ==> trim_end(s)[0] == s[0],
        exists|k: int| 0 <= k <= s.len() && trim_end(s) == s.take(k),
    decreases s.len(),
{
    if s.len() > 0 && is_unicode_whitespace(s.last()) {
        lemma_trim_end_props(s.drop_last());
        let k = choose|k: int| 0 <= k <= s.drop_last().len() && trim_end(s.drop_last()) == s.drop_last().take(k);
        assert(s.drop_last().take(k) =~= s.take(k));
    } else {
        assert(s.take(s.len() as int) =~= s);
    }
}

/// Trimmed text starts and ends with a non-whitespace character, and is a
/// contiguous part of the input.
pub proof fn law_trim_shape(s: Seq<char>)
    ensures
        trim(s).len() > 0 ==> !is_unicode_whitespace(trim(s)[0]) && !is_unicode_whitespace(trim(s).last()),
        exists|i: int, j: int| 0 <= i <= j <= s.len() && trim(s) == s.subrange(i, j),
{
    lemma_trim_start_props(s);
    lemma_trim_end_props(trim_start(s));
    let i = choose|k: int| 0 <= k <= s.len() && trim_start(s) == s.skip(k);
    let t = trim_start(s);
    let j = choose|k: int| 0 <= k <= t.len() && trim_end(t) == t.take(k);
    assert(t.take(j) =~= s.subrange(i, i + j));
}

/// Trimming twice is trimming once.
pub proof fn law_trim_idempotent(s: Seq<char>)
    ensures
        trim(trim(s)) == trim(s),
{
    law_trim_shape(s);
    let t = trim(s);
    if t.len() > 0 {
        assert(trim_start(t) == t);
        assert(trim_end(t) == t);
    } else {
        assert(trim_start(t) == t);
    }
}

/// A sanitized application name holds no character a file name cannot hold,
/// no control character, and no surrounding whitespace.
pub proof fn law_sanitized_name_is_clean(name: Seq<char>)
    ensures
        forall|i: int|
            0 <= i < spec_sanitize(name).len() ==> !is_forbidden_file_char(#[trigger] spec_sanitize(name)[i])
                && !is_control_char(spec_sanitize(name)[i]),
        spec_sanitize(name).len() > 0 ==> !is_unicode_whitespace(spec_sanitize(name)[0])
            && !is_unicode_whitespace(spec_sanitize(name).last()),
{
    let mapped = name.map_values(|c: char| sanitize_char(c));
    law_trim_shape(mapped);
    let (i, j) = choose|i: int, j: int| 0 <= i <= j <= mapped.len() && trim(mapped) == mapped.subrange(i, j);
    assert forall|k: int| 0 <= k < spec_sanitize(name).len() implies !is_forbidden_file_char(
        #[trigger] spec_sanitize(name)[k],
    ) && !is_control_char(spec_sanitize(name)[k]) by {
        assert(spec_sanitize(name)[k] == mapped[i + k]);
        assert(mapped[i + k] == sanitize_char(name[i + k]));
    }
}

/// Sanitizing a sanitized name changes nothing.
pub proof fn law_sanitize_idempotent(name: Seq<char>)
    ensures
        spec_sanitize(spec_sanitize(name)) == spec_sanitize(name),
{
    law_sanitized_name_is_clean(name);
    let s = spec_sanitize(name);
    let mapped = s.map_values(|c: char| sanitize_char(c));
    assert(mapped =~= s);
    law_trim_idempotent(name.map_values(|c: char| sanitize_char(c)));
}

/// A saved file name ends with the extension of its image.
pub proof fn law_file_name_ends_with_extension(
    config: Config,
    kind: CaptureKind,
    app_name: Option<Seq<char>>,
    ext: Seq<char>,
    time: LocalTimestamp,
)
    ensures
        ({
            let n = spec_file_name_at(config, kind, app_name, ext, time);
            n.len() >= ext.len() && n.skip(n.len() - ext.len()) == ext
        }),
{
    let n = spec_file_name_at(config, kind, app_name, ext, time);
    let stem = crate::text::before_last(
        crate::naming::render_at(time, crate::naming::spec_file_pattern(config, kind, app_name)),
        '.',
    );
    assert(n == stem + ext);
    assert(n.skip(n.len() - ext.len()) =~= ext);
}

proof fn lemma_replace_absent(s: Seq<char>, pat: Seq<char>, to: Seq<char>)
    requires
        pat.len() > 0,
        !contains_seq(s, pat),
    ensures
        replace_all(s, pat, to) == s,
    decreases s.len(),
{
    if s.len() >= pat.len() {
        assert(!occurs_at(s, pat, 0));
        assert(s.take(pat.len() as int) =~= s.subrange(0, pat.len() as int));
        assert forall|i: int| !occurs_at(s.skip(1), pat, i) by {
            if occurs_at(s.skip(1), pat, i) {
                assert(s.skip(1).subrange(i, i + pat.len()) =~= s.subrange(i + 1, i + 1 + pat.len()));
                assert(occurs_at(s, pat, i + 1));
            }
        }
        lemma_replace_absent(s.skip(1), pat, to);
        assert(seq![s[0]] + s.skip(1) =~= s);
    }
}

/// Text in which a placeholder does not occur is left as it is by replacing
/// that placeholder.
pub proof fn law_replace_absent_placeholder(s: Seq<char>, pat: Seq<char>, to: Seq<char>)
    requires
        pat.len() > 0,
        !contains_seq(s, pat),
    ensures
        replace_all(s, pat, to) == s,
{
    lemma_replace_absent(s, pat, to);
}

/// An output folder in which no known-folder placeholder occurs is kept as it is.
pub proof fn law_plain_output_dir_kept(path: Seq<char>, folders: KnownFolders)
    requires
        forall|k: int| 0 <= k < 6 ==> !contains_seq(path, #[trigger] spec_folder_slots(folders)[k].0),
    ensures
        spec_expand_path_placeholders(path, folders) == path,
{
    let slots = spec_folder_slots(folders);
    assert(!contains_seq(path, slots[0].0));
    assert(!contains_seq(path, slots[1].0));
    assert(!contains_seq(path, slots[2].0));
    assert(!contains_seq(path, slots[3].0));
    assert(!contains_seq(path, slots[4].0));
    assert(!contains_seq(path, slots[5].0));
    assert(expand_first(path, slots, 0) == path);
    assert(expand_first(path, slots, 1) == path);
    assert(expand_first(path, slots, 2) == path);
    assert(expand_first(path, slots, 3) == path);
    assert(expand_first(path, slots, 4) == path);
    assert(expand_first(path, slots, 5) == path);
}

/// A rectangle cut to a monitor lies on the monitor and within the target,
/// and covers some pixel.
pub proof fn law_clamped_rect_on_monitor(target: Rect, monitor: Rect)
    ensures
        spec_clamp_rect_to_monitor(target, monitor) matches Ok(r) ==> r.within(monitor) && r.within(target)
            && !r.spec_is_empty(),
{
}

/// Cutting a rectangle to a monitor twice is cutting it once.
pub proof fn law_clamp_idempotent(target: Rect, monitor: Rect)
    ensures
        spec_clamp_rect_to_monitor(target, monitor) matches Ok(r) ==> spec_clamp_rect_to_monitor(r, monitor)
            == spec_clamp_rect_to_monitor(target, monitor),
{
    if let Ok(r) = spec_clamp_rect_to_monitor(target, monitor) {
        assert(spec_intersection(r, monitor) == r);
    }
}

/// A crop rectangle covers some pixel and lies within the monitor's size.
pub proof fn law_crop_within_monitor(target: Rect, monitor: Rect)
    ensures
        spec_rect_to_capture_rect(target, monitor) matches Ok(c) ==> c.left < c.right <= monitor.spec_width()
            && c.top < c.bottom <= monitor.spec_height(),
{
}

/// The rectangle spanned by two corners does not depend on their order.
pub proof fn law_from_points_symmetric(a: Point, b: Point)
    ensures
        Rect::spec_from_points(a, b) == Rect::spec_from_points(b, a),
{
}

proof fn lemma_read_parts_flags(parts: Seq<Seq<char>>, n: nat)
    ensures
        read_parts(parts, n) matches Ok((m, _)) ==> m <= 15,
    decreases n,
{
    if n > 0 {
        lemma_read_parts_flags(parts, (n - 1) as nat);
        if let Ok((m, _)) = read_parts(parts, (n - 1) as nat) {
            let name = normalized_part(parts[n - 1]);
            if let Some(flag) = modifier_flag(name) {
                assert(flag == 1 || flag == 2 || flag == 4 || flag == 8);
                assert((m | flag) <= 15) by (bit_vector)
                    requires
                        m <= 15,
                        flag == 1 || flag == 2 || flag == 4 || flag == 8,
                ;
            }
        }
    }
}

/// A hotkey that is accepted never repeats while held, and has at least one
/// of the Ctrl, Alt, Shift and Win modifiers.
pub proof fn law_accepted_hotkey_flags(value: Seq<char>, id: i32)
    ensures
        spec_parse_hotkey(value, id) matches Ok((m, _, _)) ==> m & MOD_NOREPEAT != 0 && m & 0xF != 0,
{
    let parts = split_on(value, '+');
    lemma_read_parts_flags(parts, parts.len());
    if let Ok((m, _, _)) = spec_parse_hotkey(value, id) {
        if let Ok((mods, _)) = read_parts(parts, parts.len()) {
            assert(m == mods | 0x4000);
            assert((mods | 0x4000) & 0x4000 != 0 && (mods | 0x4000) & 0xF != 0) by (bit_vector)
                requires
                    1 <= mods <= 15,
            ;
        }
    }
}

proof fn lemma_lower_char_keeps_whitespace(c: char)
    ensures
        is_unicode_whitespace(ascii_lower_char(c)) == is_unicode_whitespace(c),
        ascii_lower_char(ascii_lower_char(c)) == ascii_lower_char(c),
        (ascii_lower_char(c) == '+') == (c == '+'),
{
    if 'A' <= c <= 'Z' {
        let l = ((c as u32) + 32) as char;
        assert(l as u32 == (c as u32) + 32);
    }
}

proof fn lemma_lower_idempotent(s: Seq<char>)
    ensures
        ascii_lower(ascii_lower(s)) == ascii_lower(s),
{
    assert forall|i: int| 0 <= i < s.len() implies #[trigger] ascii_lower(ascii_lower(s))[i] == ascii_lower(s)[i] by {
        lemma_lower_char_keeps_whitespace(s[i]);
    }
    assert(ascii_lower(ascii_lower(s)) =~= ascii_lower(s));
}

proof fn lemma_trim_start_lower(s: Seq<char>)
    ensures
        trim_start(ascii_lower(s)) == ascii_lower(trim_start(s)),
    decreases s.len(),
{
    if s.len() > 0 {
        lemma_lower_char_keeps_whitespace(s[0]);
        assert(ascii_lower(s)[0] == ascii_lower_char(s[0]));
        assert(ascii_lower(s).drop_first() =~= ascii_lower(s.drop_first()));
        lemma_trim_start_lower(s.drop_first());
    }
}

proof fn lemma_trim_end_lower(s: Seq<char>)
    ensures
        trim_end(ascii_lower(s)) == ascii_lower(trim_end(s)),
    decreases s.len(),
{
    if s.len() > 0 {
        lemma_lower_char_keeps_whitespace(s.last());
        assert(ascii_lower(s).last() == ascii_lower_char(s.last()));
        assert(ascii_lower(s).drop_last() =~= ascii_lower(s.drop_last()));
        lemma_trim_end_lower(s.drop_last());
    }
}

proof fn lemma_normalized_part_lower(p: Seq<char>)
    ensures
        normalized_part(ascii_lower(p)) == normalized_part(p),
{
    lemma_trim_start_lower(p);
    lemma_trim_end_lower(trim_start(p));
    lemma_lower_idempotent(trim(p));
}

proof fn lemma_split_lower(s: Seq<char>)
    ensures
        split_on(ascii_lower(s), '+').len() == split_on(s, '+').len(),
        forall|k: int|
            0 <= k < split_on(s, '+').len() ==> #[trigger] split_on(ascii_lower(s), '+')[k] == ascii_lower(
                split_on(s, '+')[k],
            ),
    decreases s.len(),
{
    if s.len() > 0 {
        let l = ascii_lower(s);
        assert(l.drop_last() =~= ascii_lower(s.drop_last()));
        assert(l.last() == ascii_lower_char(s.last()));
        lemma_lower_char_keeps_whitespace(s.last());
        lemma_split_lower(s.drop_last());
        crate::text::lemma_split_on_nonempty(s.drop_last(), '+');
        let pieces = split_on(s.drop_last(), '+');
        let lpieces = split_on(l.drop_last(), '+');
        if s.last() != '+' {
            let n = pieces.len() - 1;
            assert(ascii_lower(pieces.last().push(s.last())) =~= lpieces.last().push(l.last()));
        } else {
            assert(ascii_lower(Seq::<char>::empty()) =~= Seq::<char>::empty());
        }
    } else {
        assert(ascii_lower(s) =~= s);
    }
}

proof fn lemma_read_parts_same(a: Seq<Seq<char>>, b: Seq<Seq<char>>, n: nat)
    requires
        n <= a.len(),
        n <= b.len(),
        forall|k: int| 0 <= k < n ==> normalized_part(#[trigger] a[k]) == normalized_part(b[k]),
    ensures
        read_parts(a, n) == read_parts(b, n),
    decreases n,
{
    if n > 0 {
        lemma_read_parts_same(a, b, (n - 1) as nat);
        assert(normalized_part(a[n - 1]) == normalized_part(b[n - 1]));
    }
}

/// Hotkey text is read without regard to ASCII case: lowercasing it accepts
/// the same hotkeys with the same meaning.
pub proof fn law_hotkey_case_insensitive(value: Seq<char>, id: i32)
    ensures
        (spec_parse_hotkey(value, id) is Ok) == (spec_parse_hotkey(ascii_lower(value), id) is Ok),
        spec_parse_hotkey(value, id) is Ok ==> spec_parse_hotkey(value, id) == spec_parse_hotkey(
            ascii_lower(value),
            id,
        ),
{
    let p = split_on(value, '+');
    let lp = split_on(ascii_lower(value), '+');
    lemma_split_lower(value);
    assert forall|k: int| 0 <= k < p.len() implies normalized_part(#[trigger] lp[k]) == normalized_part(p[k]) by {
        lemma_normalized_part_lower(p[k]);
    }
    lemma_read_parts_same(lp, p, p.len());
}

/// The Bgra-to-Rgba swap undoes itself.
pub proof fn law_channel_swap_involution(bytes: Seq<u8>)
    ensures
        crate::pixels::spec_bgra_to_rgba(crate::pixels::spec_bgra_to_rgba(bytes)) == bytes,
{
    let once = crate::pixels::spec_bgra_to_rgba(bytes);
    assert(crate::pixels::spec_bgra_to_rgba(once) =~= bytes);
}

/// Magnitude of a finite half float, in units of its smallest subnormal (2^-24).
pub open spec fn half_magnitude(h: u16) -> int {
    let e = ((h / 1024) % 32) as int;
    let m = (h % 1024) as int;
    if e == 0 {
        m
    } else {
        (1024 + m) * pow2((e - 1) as nat)
    }
}

/// Magnitude of a finite single float, in units of its smallest subnormal (2^-149).
pub open spec fn f32_magnitude(b: u32) -> int {
    let e = ((b / 0x80_0000) % 256) as int;
    let f = (b % 0x80_0000) as int;
    if e == 0 {
        f
    } else {
        (0x80_0000 + f) * pow2((e - 1) as nat)
    }
}

proof fn lemma_fields(s: int, x: int, y: int)
    requires
        0 <= s <= 1,
        0 <= x < 256,
        0 <= y < 0x80_0000,
    ensures
        ({
            let r = s * 0x8000_0000 + x * 0x80_0000 + y;
            &&& (r / 0x80_0000) % 256 == x
            &&& r % 0x80_0000 == y
            &&& r / 0x8000_0000 == s
        }),
{
    let r = s * 0x8000_0000 + x * 0x80_0000 + y;
    assert(r / 0x80_0000 == s * 256 + x) by (nonlinear_arith)
        requires
            r == s * 0x8000_0000 + x * 0x80_0000 + y,
            0 <= y < 0x80_0000,
            0 <= x,
            0 <= s,
    ;
    assert((s * 256 + x) % 256 == x) by (nonlinear_arith)
        requires
            0 <= x < 256,
            0 <= s,
    ;
    assert(r % 0x80_0000 == y) by (nonlinear_arith)
        requires
            r == s * 0x8000_0000 + x * 0x80_0000 + y,
            0 <= y < 0x80_0000,
            0 <= x,
            0 <= s,
    ;
    assert(r / 0x8000_0000 == s) by (nonlinear_arith)
        requires
            r == s * 0x8000_0000 + x * 0x80_0000 + y,
            0 <= y < 0x80_0000,
            0 <= x < 256,
            0 <= s,
    ;
}

proof fn lemma_normalized_value(m: nat)
    requires
        1 <= m < 2048,
    ensures
        normalized_mantissa(m) == m * pow2(subnormal_shift(m)),
    decreases 2048 - m,
{
    if m < 1024 {
        lemma_normalized_value(2 * m);
        let k = subnormal_shift(2 * m);
        lemma_pow2_unfold(k + 1);
        assert(subnormal_shift(m) == k + 1);
        assert(normalized_mantissa(m) == normalized_mantissa(2 * m));
        assert(2 * m * pow2(k) == m * pow2(k + 1)) by (nonlinear_arith)
            requires
                pow2(k + 1) == 2 * pow2(k),
        ;
    } else {
        lemma2_to64();
        assert(subnormal_shift(m) == 0);
        assert(normalized_mantissa(m) == m);
    }
}

/// Converting a half float to a single float keeps its value exactly: the
/// sign is kept and the magnitude, measured in each format's smallest
/// subnormal, is scaled by 2^125 (the ratio of the two units); infinities
/// and NaNs stay infinities and NaNs with the same payload.
pub proof fn law_half_to_f32_exact(h: u16)
    ensures
        ({
            let r = spec_half_to_f32_bits(h);
            let e = (h / 1024) % 32;
            &&& r / 0x8000_0000 == h / 0x8000
            &&& e != 31 ==> f32_magnitude(r) == half_magnitude(h) * pow2(125)
            &&& e == 31 ==> (r / 0x80_0000) % 256 == 255 && r % 0x80_0000 == (h % 1024) * 0x2000
        }),
{
    reveal(spec_half_to_f32_bits);
    let s: int = (h / 0x8000) as int;
    let e: int = ((h / 1024) % 32) as int;
    let m: int = (h % 1024) as int;
    assert(0 <= s <= 1);
    lemma_pow2_adds(13, 112);
    lemma2_to64();
    lemma_pow2_pos(112);
    if e == 0 {
        if m == 0 {
            lemma_fields(s, 0, 0);
        } else {
            crate::pixels::lemma_normalize_facts(m as nat);
            let k = subnormal_shift(m as nat);
            let n = normalized_mantissa(m as nat);
            lemma_normalized_value(m as nat);
            let x: int = 113 - k;
            let y: int = (n - 1024) * 0x2000;
            assert(0 <= y < 0x80_0000);
            lemma_fields(s, x, y);
            let r = spec_half_to_f32_bits(h);
            assert(r as int == s * 0x8000_0000 + x * 0x80_0000 + y);
            lemma_pow2_adds(k, (112 - k) as nat);
            assert(f32_magnitude(r) == (0x80_0000 + y) * pow2((x - 1) as nat));
            assert(0x80_0000 + y == 0x2000 * n);
            assert(f32_magnitude(r) == 0x2000 * (m * pow2(k)) * pow2((112 - k) as nat));
            assert(0x2000 * (m * pow2(k)) * pow2((112 - k) as nat) == m * (pow2(13) * pow2(112))) by (nonlinear_arith)
                requires
                    pow2(k) * pow2((112 - k) as nat) == pow2(112),
                    pow2(13) == 0x2000,
            ;
        }
    } else if e == 31 {
        lemma_fields(s, 255, m * 0x2000);
    } else {
        let x: int = e + 112;
        let y: int = m * 0x2000;
        lemma_fields(s, x, y);
        lemma_pow2_adds((e - 1) as nat, 112);
        let r = spec_half_to_f32_bits(h);
        assert(f32_magnitude(r) == (0x80_0000 + y) * pow2((x - 1) as nat));
        assert((0x80_0000 + m * 0x2000) * pow2((e + 111) as nat) == (1024 + m) * pow2((e - 1) as nat) * (pow2(13) * pow2(112))) by (nonlinear_arith)
            requires
                pow2((e + 111) as nat) == pow2((e - 1) as nat) * pow2(112),
                pow2(13) == 0x2000,
        ;
    }
}

/// Every message keeps the selection's invariant: points stay in the
/// overlay and a selected region covers some pixel of the monitor.
pub proof fn law_selection_step_keeps_invariant(s: RegionSelectionState, event: SelectorEvent)
    requires
        s.inv(),
    ensures
        s.spec_step(event).0.inv(),
{
}

/// A right click or Escape ends the selection with no region and closes the overlay.
pub proof fn law_cancel_discards_selection(s: RegionSelectionState, event: SelectorEvent)
    requires
        s.inv(),
        event == SelectorEvent::RightButtonDown || event == SelectorEvent::KeyDown(VK_ESCAPE),
    ensures
        s.spec_step(event).0.finished,
        s.spec_step(event).0.result is None,
        s.spec_step(event).1.destroy_window,
{
}

/// Pressing at `a` and releasing at `b` on a fresh overlay selects the
/// rectangle between the two points (each moved into the overlay), placed
/// on the monitor; a rectangle that covers no pixel selects nothing.
pub proof fn law_drag_selects_rectangle(monitor: Rect, a: Point, b: Point)
    requires
        monitor.is_monitor_shaped(),
    ensures
        ({
            let fresh = RegionSelectionState {
                monitor_rect: monitor,
                anchor: None,
                current: None,
                result: None,
                finished: false,
            };
            let pressed = fresh.spec_step(SelectorEvent::LeftButtonDown(a)).0;
            let released = pressed.spec_step(SelectorEvent::LeftButtonUp(b)).0;
            let bounds = fresh.spec_client_bounds();
            let r = Rect::spec_from_points(
                crate::geometry::spec_clamp_point_to_rect(a, bounds),
                crate::geometry::spec_clamp_point_to_rect(b, bounds),
            );
            &&& released.finished
            &&& released.result == (if r.spec_is_empty() {
                None
            } else {
                Some(
                    Rect {
                        left: (r.left + monitor.left) as i32,
                        top: (r.top + monitor.top) as i32,
                        right: (r.right + monitor.left) as i32,
                        bottom: (r.bottom + monitor.top) as i32,
                    },
                )
            })
        }),
{
}

/// Moving a rectangle and moving it back gives the rectangle again.
pub proof fn law_offset_round_trip(r: Rect, dx: int, dy: int)
    ensures
        ({
            let moved = Rect {
                left: (r.left + dx) as i32,
                top: (r.top + dy) as i32,
                right: (r.right + dx) as i32,
                bottom: (r.bottom + dy) as i32,
            };
            (i32::MIN <= r.left + dx <= i32::MAX && i32::MIN <= r.top + dy <= i32::MAX && i32::MIN
                <= r.right + dx <= i32::MAX && i32::MIN <= r.bottom + dy <= i32::MAX) ==> Rect {
                left: (moved.left - dx) as i32,
                top: (moved.top - dy) as i32,
                right: (moved.right - dx) as i32,
                bottom: (moved.bottom - dy) as i32,
            } == r
        }),
{
}

proof fn lemma_float_plane_len(pixels: Seq<u16>, channel: int, n: nat)
    ensures
        float_plane(pixels, channel, n).len() == 4 * n,
    decreases n,
{
    if n > 0 {
        lemma_float_plane_len(pixels, channel, (n - 1) as nat);
    }
}

/// The encoder input holds twelve bytes per pixel: four for each of the
/// green, blue and red planes, which is three bytes per half-float value.
pub proof fn law_planar_output_size(pixels: Seq<u16>)
    ensures
        spec_rgba16f_to_gbrpf32le(pixels) matches Ok(out) ==> out.len() == 3 * pixels.len(),
{
    if pixels.len() % 4 == 0 {
        let n = (pixels.len() / 4) as nat;
        lemma_float_plane_len(pixels, 0, n);
        lemma_float_plane_len(pixels, 1, n);
        lemma_float_plane_len(pixels, 2, n);
    }
}

/// The file name of a full-screen or region capture taken at a given time
/// does not depend on the application name: only window captures carry one,
/// and a window capture with an empty application name is named as one
/// without a name.
pub proof fn law_app_name_only_in_window_captures(
    config: Config,
    kind: CaptureKind,
    a: Option<Seq<char>>,
    b: Option<Seq<char>>,
    ext: Seq<char>,
    time: LocalTimestamp,
)
    ensures
        kind != CaptureKind::CurrentWindow ==> crate::naming::spec_file_pattern(config, kind, a)
            == crate::naming::spec_file_pattern(config, kind, b),
        kind != CaptureKind::CurrentWindow ==> spec_file_name_at(config, kind, a, ext, time)
            == spec_file_name_at(config, kind, b, ext, time),
        crate::naming::spec_file_pattern(config, CaptureKind::CurrentWindow, Some(Seq::<char>::empty()))
            == crate::naming::spec_file_pattern(config, CaptureKind::CurrentWindow, None),
        spec_file_name_at(config, CaptureKind::CurrentWindow, Some(Seq::<char>::empty()), ext, time)
            == spec_file_name_at(config, CaptureKind::CurrentWindow, None, ext, time),
{
}

proof fn lemma_no_occurrence_in_suffix_free(p: Seq<char>, suffix: Seq<char>, pat: Seq<char>)
    requires
        pat.len() > 0,
        !contains_seq(p, pat),
        forall|j: int| 0 <= j < suffix.len() ==> suffix[j] != pat.last(),
    ensures
        !contains_seq(p + suffix, pat),
{
    let s = p + suffix;
    assert forall|i: int| !occurs_at(s, pat, i) by {
        if occurs_at(s, pat, i) {
            let last = i + pat.len() - 1;
            assert(s.subrange(i, i + pat.len())[pat.len() - 1] == pat.last());
            if last >= p.len() {
                assert(s[last] == suffix[last - p.len()]);
            } else {
                assert(s.subrange(i, i + pat.len()) =~= p.subrange(i, i + pat.len()));
                assert(occurs_at(p, pat, i));
            }
        }
    }
}

/// The text a fresh settings file writes for the default folder, as the
/// `{Pictures}` placeholder followed by `\Screenshots`.
proof fn lemma_placeholder_text()
    ensures
        "{Pictures}\\Screenshots"@ == "{Pictures}"@ + (seq!['\\'] + "Screenshots"@),
        "{Pictures}"@.len() == 10,
        forall|j: int| 0 <= j < (seq!['\\'] + "Screenshots"@).len() ==> #[trigger] (seq!['\\'] + "Screenshots"@)[j] != '}',
{
    reveal_strlit("{Pictures}\\Screenshots");
    reveal_strlit("{Pictures}");
    reveal_strlit("Screenshots");
    assert("{Pictures}\\Screenshots"@ =~= "{Pictures}"@ + (seq!['\\'] + "Screenshots"@));
}

proof fn lemma_absent_before_pictures(pat: Seq<char>)
    requires
        pat.len() >= 2,
        pat.last() == '}',
        pat[0] == '{',
        pat[1] != 'P',
    ensures
        !contains_seq("{Pictures}\\Screenshots"@, pat),
{
    lemma_placeholder_text();
    reveal_strlit("{Pictures}");
    let text = "{Pictures}\\Screenshots"@;
    let suffix = seq!['\\'] + "Screenshots"@;
    assert forall|i: int| !occurs_at(text, pat, i) by {
        if occurs_at(text, pat, i) {
            let last = i + pat.len() - 1;
            assert(text.subrange(i, i + pat.len())[pat.len() - 1] == text[last]);
            assert(text.subrange(i, i + pat.len())[0] == text[i]);
            assert(text.subrange(i, i + pat.len())[1] == text[i + 1]);
            if last >= 10 {
                assert(text[last] == suffix[last - 10]);
            } else {
                assert(text[9] == '}');
                assert(forall|j: int| 0 <= j < 9 ==> "{Pictures}"@[j] != '}');
                assert(last == 9);
                assert(i == 10 - pat.len());
                if i != 0 {
                    assert(text[i] != '{');
                }
            }
        }
    }
}

proof fn lemma_pictures_replaced(p: Seq<char>)
    ensures
        replace_all("{Pictures}\\Screenshots"@, "{Pictures}"@, p) == p + (seq!['\\'] + "Screenshots"@),
{
    lemma_placeholder_text();
    let text = "{Pictures}\\Screenshots"@;
    let suffix = seq!['\\'] + "Screenshots"@;
    assert(text.take(10) =~= "{Pictures}"@);
    assert(text.skip(10) =~= suffix);
    reveal_strlit("{Pictures}");
    assert(!contains_seq(suffix, "{Pictures}"@)) by {
        assert forall|i: int| !occurs_at(suffix, "{Pictures}"@, i) by {
            if occurs_at(suffix, "{Pictures}"@, i) {
                assert(suffix.subrange(i, i + 10)[9] == suffix[i + 9]);
            }
        }
    }
    lemma_replace_absent(suffix, "{Pictures}"@, p);
}

/// A fresh settings file names the default folder by the `{Pictures}`
/// placeholder; read back on the same machine (the Pictures folder known,
/// without a separator at its end, neither a bare drive such as `C:` nor a
/// verbatim `\\?\` path, and without a `{Videos}` placeholder in it), that
/// placeholder expands to the default folder again.
pub proof fn law_default_folder_round_trip(p: Seq<char>, profile: Option<Seq<char>>, folders: KnownFolders)
    requires
        crate::config::opt_view(folders.pictures) == Some(p),
        p.len() > 0,
        p.last() != '\\',
        p.last() != '/',
        !(crate::winpath::parse_prefix(p).0 == crate::winpath::PrefixKind::Disk && p.len() == 2),
        !crate::winpath::is_verbatim(crate::winpath::parse_prefix(p).0),
        !contains_seq(p, "{Videos}"@),
    ensures
        ({
            let default_dir = crate::config::spec_default_output_dir(Some(p), profile);
            spec_expand_path_placeholders(
                crate::config::spec_output_dir_text(default_dir, default_dir),
                folders,
            ) == default_dir
        }),
{
    lemma_placeholder_text();
    let text = "{Pictures}\\Screenshots"@;
    let slots = spec_folder_slots(folders);
    let suffix = seq!['\\'] + "Screenshots"@;
    reveal_strlit("{Desktop}");
    reveal_strlit("{Documents}");
    reveal_strlit("{Downloads}");
    reveal_strlit("{Music}");
    reveal_strlit("{Videos}");
    lemma_absent_before_pictures("{Desktop}"@);
    lemma_absent_before_pictures("{Documents}"@);
    lemma_absent_before_pictures("{Downloads}"@);
    lemma_absent_before_pictures("{Music}"@);
    assert(expand_first(text, slots, 0) == text);
    assert(expand_first(text, slots, 1) == text);
    assert(expand_first(text, slots, 2) == text);
    assert(expand_first(text, slots, 3) == text);
    assert(expand_first(text, slots, 4) == text);
    reveal_strlit("{Pictures}");
    assert(text.subrange(0, 10) =~= "{Pictures}"@);
    assert(occurs_at(text, "{Pictures}"@, 0));
    lemma_pictures_replaced(p);
    let after = p + suffix;
    assert(expand_first(text, slots, 5) == after);
    lemma_no_occurrence_in_suffix_free(p, suffix, "{Videos}"@);
    assert(expand_first(text, slots, 6) == after);
    reveal_strlit("Screenshots");
    assert(!crate::winpath::starts_norm("Screenshots"@, seq!['\\', '\\']));
    assert(!crate::winpath::has_drive_prefix("Screenshots"@));
    assert(crate::winpath::parse_prefix("Screenshots"@).0 == crate::winpath::PrefixKind::Plain);
    assert(crate::winpath::needs_separator(p));
    assert(crate::winpath::join_path(p, "Screenshots"@) =~= after);
}


proof fn lemma_float_plane_entry(pixels: Seq<u16>, channel: int, n: nat, i: int)
    requires
        0 <= i < n,
    ensures
        float_plane(pixels, channel, n).subrange(4 * i, 4 * i + 4) == crate::pixels::le_bytes_u32(
            spec_half_to_f32_bits(pixels[4 * i + channel]),
        ),
    decreases n,
{
    lemma_float_plane_len(pixels, channel, (n - 1) as nat);
    let prev = float_plane(pixels, channel, (n - 1) as nat);
    let whole = float_plane(pixels, channel, n);
    if i < n - 1 {
        lemma_float_plane_entry(pixels, channel, (n - 1) as nat, i);
        assert(whole.subrange(4 * i, 4 * i + 4) =~= prev.subrange(4 * i, 4 * i + 4));
    } else {
        assert(whole.subrange(4 * i, 4 * i + 4) =~= crate::pixels::le_bytes_u32(
            spec_half_to_f32_bits(pixels[4 * i + channel]),
        ));
    }
}

/// The encoder input is three planes of whole pixels, green, blue and red in
/// that order: for every pixel `i`, the four bytes at `4 * i` of the green
/// plane are the little-endian single float of the pixel's second value
/// (green), those of the blue plane of its third (blue) and those of the red
/// plane of its first (red). Nothing else is written, so alpha, the fourth
/// value, appears in no plane.
pub proof fn law_planar_channels(pixels: Seq<u16>, i: int)
    requires
        pixels.len() % 4 == 0,
        0 <= i < pixels.len() / 4,
    ensures
        ({
            let n = pixels.len() / 4;
            &&& spec_rgba16f_to_gbrpf32le(pixels) is Ok
            &&& spec_rgba16f_to_gbrpf32le(pixels)->Ok_0.len() == 12 * n
            &&& spec_rgba16f_to_gbrpf32le(pixels)->Ok_0.subrange(4 * i, 4 * i + 4)
                == crate::pixels::le_bytes_u32(spec_half_to_f32_bits(pixels[4 * i + 1]))
            &&& spec_rgba16f_to_gbrpf32le(pixels)->Ok_0.subrange(4 * n + 4 * i, 4 * n + 4 * i + 4)
                == crate::pixels::le_bytes_u32(spec_half_to_f32_bits(pixels[4 * i + 2]))
            &&& spec_rgba16f_to_gbrpf32le(pixels)->Ok_0.subrange(8 * n + 4 * i, 8 * n + 4 * i + 4)
                == crate::pixels::le_bytes_u32(spec_half_to_f32_bits(pixels[4 * i]))
        }),
{
    let n = (pixels.len() / 4) as nat;
    lemma_float_plane_len(pixels, 0, n);
    lemma_float_plane_len(pixels, 1, n);
    lemma_float_plane_len(pixels, 2, n);
    lemma_float_plane_entry(pixels, 0, n, i);
    lemma_float_plane_entry(pixels, 1, n, i);
    lemma_float_plane_entry(pixels, 2, n, i);
    let g = float_plane(pixels, 1, n);
    let b = float_plane(pixels, 2, n);
    let r = float_plane(pixels, 0, n);
    let out = g + b + r;
    assert(out.subrange(4 * i, 4 * i + 4) =~= g.subrange(4 * i, 4 * i + 4));
    assert(out.subrange(4 * n + 4 * i, 4 * n + 4 * i + 4) =~= b.subrange(4 * i, 4 * i + 4));
    assert(out.subrange(8 * n + 4 * i, 8 * n + 4 * i + 4) =~= r.subrange(4 * i, 4 * i + 4));
}

/// Cutting to the monitor keeps all that can be kept: every rectangle that
/// covers a pixel and lies within both the target and the monitor lies
/// within the result, which therefore exists; and a target that lies within
/// the monitor comes back unchanged.
pub proof fn law_clamp_is_largest(target: Rect, monitor: Rect, r: Rect)
    ensures
        r.within(target) && r.within(monitor) && !r.spec_is_empty() ==> (spec_clamp_rect_to_monitor(
            target,
            monitor,
        ) matches Ok(c) && r.within(c)),
        target.within(monitor) && !target.spec_is_empty() ==> spec_clamp_rect_to_monitor(target, monitor)
            == Ok::<Rect, crate::error::Error>(target),
{
}

/// Key names and their virtual-key codes: the digit `d` is `0x30 + d`, the
/// `k`-th letter (from `a`) is `0x41 + k`, and `fN` for `N` from 1 to 12 is
/// `0x6F + N`.
pub proof fn law_key_codes(c: char)
    ensures
        '0' <= c <= '9' ==> spec_parse_vk(seq![c]) is Ok
            && spec_parse_vk(seq![c])->Ok_0 as int - 0x30 == c as int - '0' as int,
        'a' <= c <= 'z' ==> spec_parse_vk(seq![c]) is Ok
            && spec_parse_vk(seq![c])->Ok_0 as int - 0x41 == c as int - 'a' as int,
        '1' <= c <= '9' ==> spec_parse_vk(seq!['f', c]) is Ok
            && spec_parse_vk(seq!['f', c])->Ok_0 as int - 0x6F == c as int - '0' as int,
        '0' <= c <= '2' ==> spec_parse_vk(seq!['f', '1', c]) is Ok
            && spec_parse_vk(seq!['f', '1', c])->Ok_0 as int - 0x6F == 10 + (c as int - '0' as int),
{
    assert(seq!['f', c].drop_first() =~= seq![c]);
    assert(seq!['f', '1', c].drop_first() =~= seq!['1', c]);
}


proof fn lemma_brace_free_lacks_placeholder(s: Seq<char>, pat: Seq<char>)
    requires
        pat.len() > 0,
        pat[0] == '{',
        !crate::text::has_char(s, '{'),
    ensures
        !contains_seq(s, pat),
{
    assert forall|i: int| !occurs_at(s, pat, i) by {
        if occurs_at(s, pat, i) {
            assert(s.subrange(i, i + pat.len())[0] == s[i]);
        }
    }
}

/// A placeholder name: `{` first and nowhere else, at least four characters.
pub open spec fn placeholder_shaped(p: Seq<char>) -> bool {
    &&& p.len() >= 4
    &&& p[0] == '{'
    &&& forall|j: int| 0 < j < p.len() ==> #[trigger] p[j] != '{'
}

proof fn lemma_other_placeholder_absent(p: Seq<char>, q: Seq<char>, suffix: Seq<char>)
    requires
        placeholder_shaped(p),
        placeholder_shaped(q),
        p.take(4) != q.take(4),
        !crate::text::has_char(suffix, '{'),
    ensures
        !contains_seq(p + suffix, q),
{
    let s = p + suffix;
    assert forall|i: int| !occurs_at(s, q, i) by {
        if occurs_at(s, q, i) {
            assert(s.subrange(i, i + q.len())[0] == s[i]);
            if i > 0 {
                if i < p.len() {
                    assert(s[i] == p[i]);
                } else {
                    assert(s[i] == suffix[i - p.len()]);
                }
            } else {
                assert forall|j: int| 0 <= j < 4 implies p.take(4)[j] == q.take(4)[j] by {
                    assert(s.subrange(0, q.len() as int)[j] == s[j]);
                }
                assert(p.take(4) =~= q.take(4));
            }
        }
    }
}

proof fn lemma_placeholder_names(folders: KnownFolders)
    ensures
        forall|k: int| 0 <= k < 6 ==> placeholder_shaped(#[trigger] spec_folder_slots(folders)[k].0),
        forall|j: int, k: int|
            0 <= j < 6 && 0 <= k < 6 && j != k ==> #[trigger] spec_folder_slots(folders)[j].0.take(4)
                != #[trigger] spec_folder_slots(folders)[k].0.take(4),
{
    reveal_strlit("{Desktop}");
    reveal_strlit("{Documents}");
    reveal_strlit("{Downloads}");
    reveal_strlit("{Music}");
    reveal_strlit("{Pictures}");
    reveal_strlit("{Videos}");
    let slots = spec_folder_slots(folders);
    assert forall|k: int| 0 <= k < 6 implies placeholder_shaped(#[trigger] slots[k].0) by {
        if k == 0 {
            assert(slots[k].0 == "{Desktop}"@);
        } else if k == 1 {
            assert(slots[k].0 == "{Documents}"@);
        } else if k == 2 {
            assert(slots[k].0 == "{Downloads}"@);
        } else if k == 3 {
            assert(slots[k].0 == "{Music}"@);
        } else if k == 4 {
            assert(slots[k].0 == "{Pictures}"@);
        } else {
            assert(slots[k].0 == "{Videos}"@);
        }
    }
    assert forall|j: int, k: int| 0 <= j < 6 && 0 <= k < 6 && j != k implies #[trigger] slots[j].0.take(4)
        != #[trigger] slots[k].0.take(4) by {
        let a = slots[j].0;
        let b = slots[k].0;
        if a.take(4) == b.take(4) {
            assert(a.take(4)[1] == a[1] && a.take(4)[2] == a[2] && a.take(4)[3] == a[3]);
            assert(b.take(4)[1] == b[1] && b.take(4)[2] == b[2] && b.take(4)[3] == b[3]);
        }
    }
}

/// What `{name}` followed by `suffix` expands to: the folder in its place
/// where the folder is known, else the text unchanged.
pub open spec fn expected_expansion(name: Seq<char>, folder: Option<Seq<char>>, suffix: Seq<char>) -> Seq<char> {
    match folder {
        Some(f) => f + suffix,
        None => name + suffix,
    }
}

proof fn lemma_expand_slot(suffix: Seq<char>, folders: KnownFolders, k: int, n: nat)
    requires
        0 <= k < 6,
        n <= 6,
        !crate::text::has_char(suffix, '{'),
        spec_folder_slots(folders)[k].1 matches Some(f) ==> !crate::text::has_char(f, '{'),
    ensures
        ({
            let slots = spec_folder_slots(folders);
            let path = slots[k].0 + suffix;
            expand_first(path, slots, n) == if n <= k {
                path
            } else {
                expected_expansion(slots[k].0, slots[k].1, suffix)
            }
        }),
    decreases n,
{
    let slots = spec_folder_slots(folders);
    let p = slots[k].0;
    let path = p + suffix;
    let res = expected_expansion(p, slots[k].1, suffix);
    lemma_placeholder_names(folders);
    if n > 0 {
        lemma_expand_slot(suffix, folders, k, (n - 1) as nat);
        let j = n - 1;
        let q = slots[j].0;
        assert(placeholder_shaped(q));
        assert(placeholder_shaped(p));
        if j < k {
            lemma_other_placeholder_absent(p, q, suffix);
        } else if j == k {
            match slots[k].1 {
                Some(f) => {
                    assert(occurs_at(path, p, 0)) by {
                        assert(path.subrange(0, p.len() as int) =~= p);
                    }
                    assert(path.take(p.len() as int) =~= p);
                    assert(path.skip(p.len() as int) =~= suffix);
                    lemma_brace_free_lacks_placeholder(suffix, p);
                    lemma_replace_absent(suffix, p, f);
                },
                None => {},
            }
        } else {
            match slots[k].1 {
                Some(f) => {
                    assert(!crate::text::has_char(f + suffix, '{')) by {
                        if crate::text::has_char(f + suffix, '{') {
                            let i = choose|i: int| 0 <= i < (f + suffix).len() && (f + suffix)[i] == '{';
                            if i < f.len() {
                                assert(f[i] == '{');
                            } else {
                                assert(suffix[i - f.len()] == '{');
                            }
                        }
                    }
                    lemma_brace_free_lacks_placeholder(f + suffix, q);
                },
                None => {
                    lemma_other_placeholder_absent(p, q, suffix);
                },
            }
        }
    }
}

/// Each known-folder placeholder stands for its own folder: `{Desktop}`,
/// `{Documents}`, `{Downloads}`, `{Music}`, `{Pictures}` or `{Videos}`
/// followed by text without a placeholder expands to the desktop, documents,
/// downloads, music, pictures or videos folder (one without a placeholder of
/// its own) followed by that text, and stays as written where that folder is
/// unknown.
pub proof fn law_known_folder_placeholders(suffix: Seq<char>, folders: KnownFolders)
    requires
        !crate::text::has_char(suffix, '{'),
    ensures
        folders.desktop matches Some(f) && crate::text::has_char(f@, '{') || spec_expand_path_placeholders(
            "{Desktop}"@ + suffix,
            folders,
        ) == expected_expansion("{Desktop}"@, crate::config::opt_view(folders.desktop), suffix),
        folders.documents matches Some(f) && crate::text::has_char(f@, '{') || spec_expand_path_placeholders(
            "{Documents}"@ + suffix,
            folders,
        ) == expected_expansion("{Documents}"@, crate::config::opt_view(folders.documents), suffix),
        folders.downloads matches Some(f) && crate::text::has_char(f@, '{') || spec_expand_path_placeholders(
            "{Downloads}"@ + suffix,
            folders,
        ) == expected_expansion("{Downloads}"@, crate::config::opt_view(folders.downloads), suffix),
        folders.music matches Some(f) && crate::text::has_char(f@, '{') || spec_expand_path_placeholders(
            "{Music}"@ + suffix,
            folders,
        ) == expected_expansion("{Music}"@, crate::config::opt_view(folders.music), suffix),
        folders.pictures matches Some(f) && crate::text::has_char(f@, '{') || spec_expand_path_placeholders(
            "{Pictures}"@ + suffix,
            folders,
        ) == expected_expansion("{Pictures}"@, crate::config::opt_view(folders.pictures), suffix),
        folders.videos matches Some(f) && crate::text::has_char(f@, '{') || spec_expand_path_placeholders(
            "{Videos}"@ + suffix,
            folders,
        ) == expected_expansion("{Videos}"@, crate::config::opt_view(folders.videos), suffix),
{
    let slots = spec_folder_slots(folders);
    if !(folders.desktop matches Some(f) && crate::text::has_char(f@, '{')) {
        lemma_expand_slot(suffix, folders, 0, 6);
    }
    if !(folders.documents matches Some(f) && crate::text::has_char(f@, '{')) {
        lemma_expand_slot(suffix, folders, 1, 6);
    }
    if !(folders.downloads matches Some(f) && crate::text::has_char(f@, '{')) {
        lemma_expand_slot(suffix, folders, 2, 6);
    }
    if !(folders.music matches Some(f) && crate::text::has_char(f@, '{')) {
        lemma_expand_slot(suffix, folders, 3, 6);
    }
    if !(folders.pictures matches Some(f) && crate::text::has_char(f@, '{')) {
        lemma_expand_slot(suffix, folders, 4, 6);
    }
    if !(folders.videos matches Some(f) && crate::text::has_char(f@, '{')) {
        lemma_expand_slot(suffix, folders, 5, 6);
    }
}


proof fn lemma_leap_step(y: int)
    ensures
        crate::naming::leap_years_before(y + 1) - crate::naming::leap_years_before(y) == if crate::naming::is_leap_year(y) {
            1int
        } else {
            0int
        },
{
    assert(y / 4 - (y - 1) / 4 == if y % 4 == 0 { 1int } else { 0int }) by (nonlinear_arith);
    assert(y / 100 - (y - 1) / 100 == if y % 100 == 0 { 1int } else { 0int }) by (nonlinear_arith);
    assert(y / 400 - (y - 1) / 400 == if y % 400 == 0 { 1int } else { 0int }) by (nonlinear_arith);
    assert(y % 400 == 0 ==> y % 100 == 0 && y % 4 == 0) by (nonlinear_arith);
    assert(y % 100 == 0 ==> y % 4 == 0) by (nonlinear_arith);
}

/// The day count of the calendar that local times are read in: 1 January
/// 1970 is day 0, and the day after any valid date is counted one more, so
/// every date is counted by its distance in days from 1 January 1970.
pub proof fn law_civil_day_count(year: int, month: int, day: int)
    requires
        1 <= month <= 12,
        1 <= day <= crate::naming::days_in_month(year, month),
    ensures
        crate::naming::days_from_civil(1970, 1, 1) == 0,
        ({
            let (y, m, d) = crate::naming::next_day(year, month, day);
            crate::naming::days_from_civil(y, m, d) == crate::naming::days_from_civil(year, month, day) + 1
        }),
{
    if day == crate::naming::days_in_month(year, month) && month == 12 {
        lemma_leap_step(year);
    }
}

} // verus!
