//! Decisions around the system interfaces: message loops, display queries,
//! wide strings, window and module names, the notification and the encoder.

use vstd::prelude::*;
use crate::capture::{spec_kind_notification_label, CaptureKind};
use crate::error::{Error, ErrorView};
use crate::text::{
    chars_eq, chars_of, encode_wide, push_decimal, to_owned_string, trim, trim_end_matches, trim_end_matches_str,
    trim_str, utf16_encode, utf16_units, decimal, has_char,
};

verus! {

broadcast use vstd::string::group_string_axioms;

/// A hotkey registered with the system, and the capture it triggers.
#[derive(Debug, Clone, Copy, PartialEq, Eq, Structural)]
pub struct HotkeyRegistration {
    pub id: i32,
    pub kind: CaptureKind,
}

/// What the hotkey loop does with what `GetMessageW` returned.
#[derive(Debug, Clone, Copy, PartialEq, Eq, Structural)]
pub enum HotkeyLoopAction {
    /// Reading the queue failed: stop with an error.
    Fail,
    /// The queue was closed: stop.
    Exit,
    /// A registered hotkey was pressed: take this capture.
    Capture(CaptureKind),
    /// Any other message: translate and dispatch it.
    Dispatch,
}

/// The first registration with number `id`.
pub open spec fn find_registration(hotkeys: Seq<HotkeyRegistration>, id: i32) -> Option<HotkeyRegistration>
    decreases hotkeys.len(),
{
    if hotkeys.len() == 0 {
        None
    } else if hotkeys[0].id == id {
        Some(hotkeys[0])
    } else {
        find_registration(hotkeys.drop_first(), id)
    }
}

/// The step of the hotkey loop for a `GetMessageW` status, message and `WPARAM`.
pub open spec fn spec_hotkey_loop_step(status: i32, message: u32, wparam: usize, hotkeys: Seq<HotkeyRegistration>) -> HotkeyLoopAction {
    if status == -1 {
        HotkeyLoopAction::Fail
    } else if status == 0 {
        HotkeyLoopAction::Exit
    } else if message == crate::hotkey::WM_HOTKEY && find_registration(hotkeys, wparam as i32) is Some {
        HotkeyLoopAction::Capture(find_registration(hotkeys, wparam as i32)->0.kind)
    } else {
        HotkeyLoopAction::Dispatch
    }
}

/// Decides what the hotkey loop does with one result of `GetMessageW`.
pub fn hotkey_loop_step(status: i32, message: u32, wparam: usize, hotkeys: &Vec<HotkeyRegistration>) -> (a: HotkeyLoopAction)
    ensures
        a == spec_hotkey_loop_step(status, message, wparam, hotkeys@),
{
    if status == -1 {
        return HotkeyLoopAction::Fail;
    }
    if status == 0 {
        return HotkeyLoopAction::Exit;
    }
    if message == crate::hotkey::WM_HOTKEY {
        let hotkey_id = wparam as i32;
        let mut i: usize = 0;
        assert(hotkeys@.skip(0) =~= hotkeys@);
        while i < hotkeys.len()
            invariant
                i <= hotkeys@.len(),
                status != -1 && status != 0,
                message == crate::hotkey::WM_HOTKEY,
                hotkey_id == wparam as i32,
                find_registration(hotkeys@.skip(i as int), hotkey_id) == find_registration(hotkeys@, hotkey_id),
            decreases hotkeys.len() - i,
        {
            if hotkeys[i].id == hotkey_id {
                assert(hotkeys@.skip(i as int)[0] == hotkeys@[i as int]);
                return HotkeyLoopAction::Capture(hotkeys[i].kind);
            }
            assert(hotkeys@.skip(i as int).drop_first() =~= hotkeys@.skip(i + 1));
            i = i + 1;
        }
    }
    HotkeyLoopAction::Dispatch
}

/// The error the hotkey loop stops with.
pub fn hotkey_loop_error() -> (e: Error)
    ensures
        e@ == ErrorView::HotkeyLoopFailed,
{
    Error::HotkeyLoopFailed
}

/// What the region selection loop does with what `GetMessageW` returned.
#[derive(Debug, Clone, Copy, PartialEq, Eq, Structural)]
pub enum RegionLoopAction {
    /// Reading the queue failed: stop with an error.
    Fail,
    /// The queue was closed: stop.
    Stop,
    /// Translate and dispatch the message.
    Dispatch,
}

/// Decides what the region selection loop does with one result of `GetMessageW`.
pub fn region_loop_step(status: i32) -> (a: RegionLoopAction)
    ensures
        a == (if status == -1 {
            RegionLoopAction::Fail
        } else if status == 0 {
            RegionLoopAction::Stop
        } else {
            RegionLoopAction::Dispatch
        }),
{
    if status == -1 {
        RegionLoopAction::Fail
    } else if status == 0 {
        RegionLoopAction::Stop
    } else {
        RegionLoopAction::Dispatch
    }
}

/// `ERROR_SUCCESS`.
pub const ERROR_SUCCESS: u32 = 0;
/// `ERROR_INSUFFICIENT_BUFFER`.
pub const ERROR_INSUFFICIENT_BUFFER: u32 = 122;

/// What to do after `QueryDisplayConfig` returned `result` on the
/// `attempts`-th try.
#[derive(Debug, Clone, Copy, PartialEq, Eq, Structural)]
pub enum DisplayQueryStep {
    /// The paths were read.
    Done,
    /// The buffers were too small: ask for the sizes again and retry.
    Retry,
    /// Give up with the status.
    Fail(u32),
}

/// A query is done on success; one whose buffers were too small is retried
/// up to three tries in all; anything else fails.
pub fn display_query_step(result: u32, attempts: u32) -> (s: DisplayQueryStep)
    ensures
        s == (if result == ERROR_SUCCESS {
            DisplayQueryStep::Done
        } else if result != ERROR_INSUFFICIENT_BUFFER || attempts >= 3 {
            DisplayQueryStep::Fail(result)
        } else {
            DisplayQueryStep::Retry
        }),
{
    if result == ERROR_SUCCESS {
        DisplayQueryStep::Done
    } else if result != ERROR_INSUFFICIENT_BUFFER || attempts >= 3 {
        DisplayQueryStep::Fail(result)
    } else {
        DisplayQueryStep::Retry
    }
}

/// The error a failed display query ends with.
pub fn display_query_error(result: u32) -> (e: Error)
    ensures
        e@ == ErrorView::DisplayConfigQueryFailed(result),
{
    Error::DisplayConfigQueryFailed(result)
}

/// The result of looking for the display path of a monitor among the paths
/// from `from` on: the first whose source name equals `device`, or the error
/// of the first source name that could not be read before it.
pub open spec fn first_matching_path(device: Seq<char>, sources: Seq<Result<String, i32>>, from: int) -> Result<Option<int>, ErrorView>
    decreases sources.len() - from,
{
    if from < 0 || from >= sources.len() {
        Ok(None)
    } else {
        match sources[from] {
            Err(code) => Err(ErrorView::DisplaySourceNameFailed(code)),
            Ok(name) => if name@ == device {
                Ok(Some(from))
            } else {
                first_matching_path(device, sources, from + 1)
            },
        }
    }
}

/// Which active display path belongs to a monitor: none for a monitor
/// without a device name, else the first path whose source name is that
/// name, none when no path has it, and the error of a source name that
/// could not be read before the match.
pub open spec fn spec_hdr_display_path(device: Seq<char>, sources: Seq<Result<String, i32>>) -> Result<Option<int>, ErrorView> {
    if device.len() == 0 {
        Ok(None)
    } else {
        first_matching_path(device, sources, 0)
    }
}

/// Picks the display path whose advanced-color state tells whether a monitor
/// shows HDR, from the monitor's device name and the source names of the
/// active display paths (each read, or the status it failed with), in order.
pub fn hdr_display_path(device_name: &str, source_names: &Vec<Result<String, i32>>) -> (r: Result<Option<usize>, Error>)
    ensures
        match r {
            Ok(None) => spec_hdr_display_path(device_name@, source_names@) == Ok::<Option<int>, ErrorView>(None),
            Ok(Some(i)) => spec_hdr_display_path(device_name@, source_names@) == Ok::<Option<int>, ErrorView>(Some(i as int)),
            Err(e) => spec_hdr_display_path(device_name@, source_names@) == Err::<Option<int>, ErrorView>(e@),
        },
{
    let device = chars_of(device_name);
    if device.len() == 0 {
        return Ok(None);
    }
    let mut i: usize = 0;
    while i < source_names.len()
        invariant
            i <= source_names@.len(),
            device@ == device_name@,
            device@.len() > 0,
            first_matching_path(device@, source_names@, i as int) == first_matching_path(device@, source_names@, 0),
        decreases source_names.len() - i,
    {
        match &source_names[i] {
            Err(code) => {
                return Err(Error::DisplaySourceNameFailed(*code));
            },
            Ok(name) => {
                let chars = chars_of(name.as_str());
                if chars_eq(&chars, &device) {
                    return Ok(Some(i));
                }
            },
        }
        i = i + 1;
    }
    Ok(None)
}

/// Whether the advanced-color flags of a display say that advanced color
/// (HDR) is both supported (bit 0) and enabled (bit 1).
pub open spec fn spec_advanced_color_active(flags: u32) -> bool {
    flags % 2 == 1 && (flags / 2) % 2 == 1
}

/// Reads the advanced-color flags of a display.
pub fn advanced_color_active(flags: u32) -> (b: bool)
    ensures
        b == spec_advanced_color_active(flags),
{
    let supported = (flags & 0b0001) != 0;
    let enabled = (flags & 0b0010) != 0;
    assert(supported == (flags % 2 == 1) && enabled == ((flags / 2) % 2 == 1)) by (bit_vector)
        requires
            supported == ((flags & 0b0001) != 0),
            enabled == ((flags & 0b0010) != 0),
    ;
    supported && enabled
}

/// Whether a UTF-16 unit is a leading (high) surrogate.
pub open spec fn is_high_surrogate(u: u16) -> bool {
    0xD800 <= u <= 0xDBFF
}

/// Whether a UTF-16 unit is a trailing (low) surrogate.
pub open spec fn is_low_surrogate(u: u16) -> bool {
    0xDC00 <= u <= 0xDFFF
}

/// The character a surrogate pair stands for.
pub open spec fn surrogate_pair_value(high: u16, low: u16) -> u32 {
    (0x10000 + (high - 0xD800) * 0x400 + (low - 0xDC00)) as u32
}

/// UTF-16 decoding with replacement (`char::decode_utf16`, each error
/// replaced by U+FFFD): a unit outside the surrogate range is its own
/// character, a leading surrogate followed by a trailing one is the character
/// of the pair, and any other surrogate is U+FFFD.
pub open spec fn utf16_lossy(units: Seq<u16>) -> Seq<char>
    decreases units.len(),
{
    if units.len() == 0 {
        Seq::<char>::empty()
    } else if !(0xD800 <= units[0] <= 0xDFFF) {
        seq![(units[0] as u32) as char] + utf16_lossy(units.drop_first())
    } else if is_high_surrogate(units[0]) && units.len() >= 2 && is_low_surrogate(units[1]) {
        seq![surrogate_pair_value(units[0], units[1]) as char] + utf16_lossy(units.skip(2))
    } else {
        seq!['\u{FFFD}'] + utf16_lossy(units.drop_first())
    }
}

/// The UTF-16 encoding of a text is that of its first character followed by
/// that of the rest.
proof fn lemma_utf16_encode_front(cs: Seq<char>)
    requires
        cs.len() > 0,
    ensures
        utf16_encode(cs) == utf16_units(cs[0]) + utf16_encode(cs.drop_first()),
    decreases cs.len(),
{
    if cs.len() == 1 {
        assert(cs.drop_last() =~= Seq::<char>::empty());
        assert(cs.drop_first() =~= Seq::<char>::empty());
        assert(utf16_encode(cs) =~= utf16_units(cs[0]));
    } else {
        let init = cs.drop_last();
        lemma_utf16_encode_front(init);
        assert(init[0] == cs[0]);
        assert(init.drop_first() =~= cs.drop_first().drop_last());
        assert(cs.drop_first().last() == cs.last());
        assert(utf16_encode(cs) =~= utf16_units(cs[0]) + utf16_encode(cs.drop_first()));
    }
}

/// Decoding the units of one character followed by more units gives that
/// character followed by the decoding of the rest.
proof fn lemma_utf16_decode_char(c: char, rest: Seq<u16>)
    ensures
        utf16_lossy(utf16_units(c) + rest) == seq![c] + utf16_lossy(rest),
{
    let u = c as u32;
    vstd::utf8::char_is_scalar(c);
    vstd::utf8::char_u32_cast(c, u);
    let all = utf16_units(c) + rest;
    if u < 0x10000 {
        let w = u as u16;
        assert(w as u32 == u);
        assert(all[0] == w);
        assert(all.drop_first() =~= rest);
    } else {
        let v: int = u - 0x10000;
        assert(v / 1024 * 1024 + v % 1024 == v && 0 <= v % 1024 < 1024 && 0 <= v / 1024 < 1024) by (nonlinear_arith)
            requires
                0 <= v <= 0xFFFFF,
        ;
        let hi = (0xD800 + v / 1024) as u16;
        let lo = (0xDC00 + v % 1024) as u16;
        assert(hi == 0xD800 + v / 1024);
        assert(lo == 0xDC00 + v % 1024);
        assert(all[0] == hi);
        assert(all[1] == lo);
        assert(all.skip(2) =~= rest);
        assert(surrogate_pair_value(hi, lo) == u);
    }
}

/// Decoding the UTF-16 encoding of a text gives the text back.
pub proof fn law_utf16_round_trip(cs: Seq<char>)
    ensures
        utf16_lossy(utf16_encode(cs)) == cs,
    decreases cs.len(),
{
    if cs.len() > 0 {
        lemma_utf16_encode_front(cs);
        lemma_utf16_decode_char(cs[0], utf16_encode(cs.drop_first()));
        law_utf16_round_trip(cs.drop_first());
        assert(seq![cs[0]] + cs.drop_first() =~= cs);
    }
}

/// `String::from_utf16_lossy`: UTF-16 decoding with each unpaired surrogate
/// replaced by U+FFFD, as its documentation and that of `char::decode_utf16`
/// describe.
#[verifier::external_body]
pub(crate) fn string_from_utf16_lossy(units: &[u16]) -> (s: String)
    ensures
        s@ == utf16_lossy(units@),
{
    String::from_utf16_lossy(units)
}

/// Position of the first zero unit, or the length when there is none.
pub open spec fn first_zero(units: Seq<u16>) -> int
    decreases units.len(),
{
    if units.len() == 0 {
        0
    } else if units[0] == 0 {
        0
    } else {
        1 + first_zero(units.drop_first())
    }
}

/// UTF-16 units of text without a NUL character hold no zero unit.
pub proof fn lemma_utf16_encode_no_zero(cs: Seq<char>)
    requires
        !has_char(cs, '\0'),
    ensures
        forall|j: int| 0 <= j < utf16_encode(cs).len() ==> #[trigger] utf16_encode(cs)[j] != 0,
    decreases cs.len(),
{
    if cs.len() > 0 {
        let init = cs.drop_last();
        assert(!has_char(init, '\0')) by {
            if has_char(init, '\0') {
                let i = choose|i: int| 0 <= i < init.len() && init[i] == '\0';
                assert(cs[i] == '\0');
            }
        }
        lemma_utf16_encode_no_zero(init);
        let c = cs.last();
        assert(cs[cs.len() - 1] == c);
        let u = c as u32;
        vstd::utf8::char_is_scalar(c);
        assert(u <= 0x10FFFF);
        assert(u != 0) by {
            if u == 0 {
                vstd::utf8::char_u32_cast(c, u);
                vstd::utf8::char_u32_cast('\0', 0u32);
            }
        }
        assert(u != 0 && u < 0x10000 ==> (u as u16) != 0) by (bit_vector);
        assert(0x10000 <= u && u <= 0x10FFFF ==> ((0xD800 + (u - 0x10000) / 1024) as u16) != 0
            && ((0xDC00 + (u - 0x10000) % 1024) as u16) != 0) by (bit_vector);
        let units = utf16_units(c);
        assert(forall|j: int| 0 <= j < units.len() ==> #[trigger] units[j] != 0);
        let enc = utf16_encode(cs);
        assert(enc == utf16_encode(init) + units);
        assert forall|j: int| 0 <= j < enc.len() implies #[trigger] enc[j] != 0 by {
            if j < utf16_encode(init).len() {
                assert(enc[j] == utf16_encode(init)[j]);
            } else {
                assert(enc[j] == units[j - utf16_encode(init).len()]);
            }
        }
    }
}

/// The first zero of units without a zero, followed by one, is that one.
proof fn lemma_first_zero_of_terminated(s: Seq<u16>)
    requires
        forall|j: int| 0 <= j < s.len() ==> #[trigger] s[j] != 0,
    ensures
        first_zero(s.push(0u16)) == s.len(),
    decreases s.len(),
{
    if s.len() > 0 {
        assert(s.push(0u16)[0] == s[0]);
        assert(s.push(0u16).drop_first() =~= s.drop_first().push(0u16));
        assert forall|j: int| 0 <= j < s.drop_first().len() implies #[trigger] s.drop_first()[j] != 0 by {
            assert(s.drop_first()[j] == s[j + 1]);
        }
        lemma_first_zero_of_terminated(s.drop_first());
    } else {
        assert(s.push(0u16)[0] == 0);
    }
}

/// A NUL-free text, UTF-16 encoded and zero-terminated, reads back up to its
/// terminator as its own encoding: the units that `wide_array_to_string`
/// decodes are exactly those of the text.
pub proof fn law_wide_text_round_trip(cs: Seq<char>)
    requires
        !has_char(cs, '\0'),
    ensures
        first_zero(utf16_encode(cs).push(0u16)) == utf16_encode(cs).len(),
        utf16_encode(cs).push(0u16).take(first_zero(utf16_encode(cs).push(0u16))) == utf16_encode(cs),
{
    lemma_utf16_encode_no_zero(cs);
    lemma_first_zero_of_terminated(utf16_encode(cs));
    assert(utf16_encode(cs).push(0u16).take(utf16_encode(cs).len() as int) =~= utf16_encode(cs));
}

/// The text of a zero-terminated wide-character buffer: the units before the
/// first zero, decoded.
pub fn wide_array_to_string(buffer: &[u16]) -> (s: String)
    ensures
        0 <= first_zero(buffer@) <= buffer@.len(),
        s@ == utf16_lossy(buffer@.take(first_zero(buffer@))),
        forall|cs: Seq<char>|
            !has_char(cs, '\0') && buffer@ == #[trigger] utf16_encode(cs).push(0u16) ==> s@ == cs,
{
    let mut end: usize = 0;
    assert(buffer@.skip(0) =~= buffer@);
    while end < buffer.len() && buffer[end] != 0
        invariant
            end <= buffer@.len(),
            first_zero(buffer@) == end + first_zero(buffer@.skip(end as int)),
        decreases buffer.len() - end,
    {
        assert(buffer@.skip(end as int).drop_first() =~= buffer@.skip(end + 1));
        end = end + 1;
    }
    proof {
        if end < buffer@.len() {
            assert(buffer@.skip(end as int)[0] == 0);
        } else {
            assert(buffer@.skip(end as int).len() == 0);
        }
    }
    let mut prefix: Vec<u16> = Vec::new();
    let mut k: usize = 0;
    while k < end
        invariant
            k <= end <= buffer@.len(),
            prefix@ == buffer@.take(k as int),
        decreases end - k,
    {
        prefix.push(buffer[k]);
        k = k + 1;
        assert(buffer@.take(k as int) =~= buffer@.take(k - 1).push(buffer@[k - 1]));
    }
    let s = string_from_utf16_lossy(prefix.as_slice());
    proof {
        assert forall|cs: Seq<char>|
            !has_char(cs, '\0') && buffer@ == #[trigger] utf16_encode(cs).push(0u16) implies s@ == cs by {
            law_wide_text_round_trip(cs);
            law_utf16_round_trip(cs);
        }
    }
    s
}

/// The application name of a module: its base name decoded, with every
/// trailing `.exe` removed.
pub open spec fn spec_module_app_name(units: Seq<u16>) -> Seq<char> {
    trim_end_matches(utf16_lossy(units), ".exe"@)
}

/// The application name of a module from the units of its base name.
pub fn module_app_name(units: &[u16]) -> (s: String)
    ensures
        s@ == spec_module_app_name(units@),
{
    let name = string_from_utf16_lossy(units);
    proof {
        reveal_strlit(".exe");
    }
    trim_end_matches_str(name.as_str(), ".exe")
}

/// The window title from the units `GetWindowTextW` filled in.
pub fn window_title_from_units(units: &[u16]) -> (s: String)
    ensures
        s@ == utf16_lossy(units@),
{
    string_from_utf16_lossy(units)
}

/// The window class name of the region selection overlay, zero-terminated.
pub fn region_selector_class_name() -> (v: Vec<u16>)
    ensures
        v@ == utf16_encode("BiteScreenshotRegionSelector"@).push(0u16),
{
    encode_wide("BiteScreenshotRegionSelector")
}

/// Title of the notification.
pub const NOTIFICATION_TITLE: &'static str = "Bite Screenshot";

/// The first line of the notification: how the screenshot was taken.
pub fn notification_text(kind: CaptureKind) -> (s: String)
    ensures
        s@ == "截图方式："@ + spec_kind_notification_label(kind),
{
    let mut s = to_owned_string("截图方式：");
    s.append(kind.notification_label());
    s
}

/// The text `String::from_utf8_lossy` decodes bytes into: valid UTF-8
/// sequences become their characters, invalid ones U+FFFD.
pub uninterp spec fn utf8_lossy(bytes: Seq<u8>) -> Seq<char>;

/// `String::from_utf8_lossy`, made owned. The contract names the text
/// `utf8_lossy` of the bytes, and states what the documentation promises of
/// valid UTF-8: it comes back as the characters it encodes. How invalid
/// sequences are replaced is not stated.
#[verifier::external_body]
fn string_from_utf8_lossy(bytes: &[u8]) -> (s: String)
    ensures
        s@ == utf8_lossy(bytes@),
        vstd::utf8::valid_utf8(bytes@) ==> s@ == vstd::utf8::decode_utf8(bytes@),
{
    String::from_utf8_lossy(bytes).into_owned()
}

/// The error text when the encoder fails: its trimmed error output after the
/// base message, or the base message alone when that output is blank.
pub open spec fn spec_encoder_failure_message(stderr: Seq<u8>) -> Seq<char> {
    encoder_failure_text(utf8_lossy(stderr))
}

/// The error text for the encoder's decoded error output.
pub open spec fn encoder_failure_text(output: Seq<char>) -> Seq<char> {
    let text = trim(output);
    if text.len() == 0 {
        "ffmpeg 写入 HDR AVIF 失败"@
    } else {
        "ffmpeg 写入 HDR AVIF 失败: "@ + text
    }
}

/// The error text when the encoder fails, from its error output.
pub fn encoder_failure_message(stderr: &[u8]) -> (s: String)
    ensures
        s@ == spec_encoder_failure_message(stderr@),
        vstd::utf8::valid_utf8(stderr@) ==> s@ == encoder_failure_text(vstd::utf8::decode_utf8(stderr@)),
{
    let text = string_from_utf8_lossy(stderr);
    let trimmed = trim_str(text.as_str());
    let chars = crate::text::chars_of(trimmed.as_str());
    if chars.len() == 0 {
        to_owned_string("ffmpeg 写入 HDR AVIF 失败")
    } else {
        let mut s = to_owned_string("ffmpeg 写入 HDR AVIF 失败: ");
        s.append(trimmed.as_str());
        s
    }
}

/// Brightness, in nits, of scRGB value 1.0: the white the encoder maps to
/// this brightness in PQ.
pub const SCRGB_REFERENCE_WHITE_NITS: u32 = 80;

/// `width` and `height` written as the encoder's frame size, `WxH`.
pub open spec fn spec_frame_size(width: u32, height: u32) -> Seq<char> {
    decimal(width as nat) + "x"@ + decimal(height as nat)
}

/// The encoder's filter chain: linear BT.709 scRGB in, PQ BT.2020 10-bit 4:4:4
/// out, with scRGB 1.0 at the reference white.
pub open spec fn spec_hdr_filter() -> Seq<char> {
    "zscale=pin=bt709:tin=linear:min=gbr:rin=full:p=bt2020:t=smpte2084:m=bt2020nc:r=full:npl="@
        + decimal(SCRGB_REFERENCE_WHITE_NITS as nat) + ",format=yuv444p10le"@
}

/// The encoder's arguments for writing a `width` by `height` planar float
/// frame read from standard input as a still AVIF image at `path`.
pub open spec fn spec_avif_encoder_args(width: u32, height: u32, path: Seq<char>) -> Seq<Seq<char>> {
    seq![
        "-hide_banner"@, "-loglevel"@, "error"@, "-y"@, "-f"@, "rawvideo"@, "-pix_fmt"@,
        "gbrpf32le"@, "-s"@, spec_frame_size(width, height), "-i"@, "pipe:0"@, "-vf"@,
        spec_hdr_filter(), "-frames:v"@, "1"@, "-c:v"@, "libaom-av1"@, "-still-picture"@, "1"@,
        "-cpu-used"@, "6"@, "-crf"@, "12"@, "-pix_fmt"@, "yuv444p10le"@, "-color_primaries"@,
        "bt2020"@, "-color_trc"@, "smpte2084"@, "-colorspace"@, "bt2020nc"@, "-f"@, "avif"@, path,
    ]
}

/// The encoder's arguments for writing an HDR capture at `path`.
pub fn avif_encoder_args(width: u32, height: u32, path: &str) -> (args: Vec<String>)
    ensures
        args@.len() == spec_avif_encoder_args(width, height, path@).len(),
        forall|i: int| 0 <= i < args@.len() ==> #[trigger] args@[i]@ == spec_avif_encoder_args(width, height, path@)[i],
{
    let mut size = String::new();
    push_decimal(&mut size, width as u64);
    size.append("x");
    push_decimal(&mut size, height as u64);
    let mut filter = to_owned_string("zscale=pin=bt709:tin=linear:min=gbr:rin=full:p=bt2020:t=smpte2084:m=bt2020nc:r=full:npl=");
    push_decimal(&mut filter, SCRGB_REFERENCE_WHITE_NITS as u64);
    filter.append(",format=yuv444p10le");
    let mut args: Vec<String> = Vec::new();
    args.push(to_owned_string("-hide_banner"));
    args.push(to_owned_string("-loglevel"));
    args.push(to_owned_string("error"));
    args.push(to_owned_string("-y"));
    args.push(to_owned_string("-f"));
    args.push(to_owned_string("rawvideo"));
    args.push(to_owned_string("-pix_fmt"));
    args.push(to_owned_string("gbrpf32le"));
    args.push(to_owned_string("-s"));
    args.push(size);
    args.push(to_owned_string("-i"));
    args.push(to_owned_string("pipe:0"));
    args.push(to_owned_string("-vf"));
    args.push(filter);
    args.push(to_owned_string("-frames:v"));
    args.push(to_owned_string("1"));
    args.push(to_owned_string("-c:v"));
    args.push(to_owned_string("libaom-av1"));
    args.push(to_owned_string("-still-picture"));
    args.push(to_owned_string("1"));
    args.push(to_owned_string("-cpu-used"));
    args.push(to_owned_string("6"));
    args.push(to_owned_string("-crf"));
    args.push(to_owned_string("12"));
    args.push(to_owned_string("-pix_fmt"));
    args.push(to_owned_string("yuv444p10le"));
    args.push(to_owned_string("-color_primaries"));
    args.push(to_owned_string("bt2020"));
    args.push(to_owned_string("-color_trc"));
    args.push(to_owned_string("smpte2084"));
    args.push(to_owned_string("-colorspace"));
    args.push(to_owned_string("bt2020nc"));
    args.push(to_owned_string("-f"));
    args.push(to_owned_string("avif"));
    args.push(to_owned_string(path));
    args
}

} // verus!
