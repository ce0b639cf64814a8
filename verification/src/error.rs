//! Errors of the screenshot tool.

use vstd::prelude::*;
use crate::text::{push_signed_decimal, to_owned_string};

verus! {

/// Everything that can go wrong in the library's own logic.
#[derive(Debug)]
pub enum Error {
    /// A half-float RGBA buffer whose length is not a multiple of four.
    InvalidHdrBuffer,
    /// A captured HDR byte buffer of odd length.
    InvalidWgcHdrBuffer,
    /// The capture rectangle lies outside the monitor under the cursor.
    RegionOutsideMonitor,
    /// A window capture without a foreground window.
    NoActiveWindow,
    /// A region capture without a selected region.
    NoRegionSelected,
    /// An RGBA8 frame smaller than its dimensions.
    Rgba8BufferConversion,
    /// A hotkey without a modifier key; holds the hotkey text.
    HotkeyNeedsModifier(String),
    /// A hotkey registration number other than 1, 2 or 3.
    UnknownHotkeyId(i32),
    /// A hotkey without a main key.
    HotkeyMissingKey,
    /// A key name that is not supported; holds the lowercased name.
    UnsupportedKey(String),
    /// Reading the message queue of the hotkey loop failed.
    HotkeyLoopFailed,
    /// Reading the message queue of the region selection failed.
    RegionLoopFailed,
    /// The display configuration query failed with this status.
    DisplayConfigQueryFailed(u32),
    /// Reading the source name of a display path failed with this status.
    DisplaySourceNameFailed(i32),
    /// A file-name pattern that `chrono` cannot format.
    FileNamePatternInvalid,
    /// The system clock could not be read as a date and time.
    ClockUnavailable,
}

/// An error with its texts as character sequences.
pub enum ErrorView {
    InvalidHdrBuffer,
    InvalidWgcHdrBuffer,
    RegionOutsideMonitor,
    NoActiveWindow,
    NoRegionSelected,
    Rgba8BufferConversion,
    HotkeyNeedsModifier(Seq<char>),
    UnknownHotkeyId(i32),
    HotkeyMissingKey,
    UnsupportedKey(Seq<char>),
    HotkeyLoopFailed,
    RegionLoopFailed,
    DisplayConfigQueryFailed(u32),
    DisplaySourceNameFailed(i32),
    FileNamePatternInvalid,
    ClockUnavailable,
}

impl View for Error {
    type V = ErrorView;

    open spec fn view(&self) -> ErrorView {
        match self {
            Error::InvalidHdrBuffer => ErrorView::InvalidHdrBuffer,
            Error::InvalidWgcHdrBuffer => ErrorView::InvalidWgcHdrBuffer,
            Error::RegionOutsideMonitor => ErrorView::RegionOutsideMonitor,
            Error::NoActiveWindow => ErrorView::NoActiveWindow,
            Error::NoRegionSelected => ErrorView::NoRegionSelected,
            Error::Rgba8BufferConversion => ErrorView::Rgba8BufferConversion,
            Error::HotkeyNeedsModifier(v) => ErrorView::HotkeyNeedsModifier(v@),
            Error::UnknownHotkeyId(id) => ErrorView::UnknownHotkeyId(*id),
            Error::HotkeyMissingKey => ErrorView::HotkeyMissingKey,
            Error::UnsupportedKey(v) => ErrorView::UnsupportedKey(v@),
            Error::HotkeyLoopFailed => ErrorView::HotkeyLoopFailed,
            Error::RegionLoopFailed => ErrorView::RegionLoopFailed,
            Error::DisplayConfigQueryFailed(c) => ErrorView::DisplayConfigQueryFailed(*c),
            Error::DisplaySourceNameFailed(c) => ErrorView::DisplaySourceNameFailed(*c),
            Error::FileNamePatternInvalid => ErrorView::FileNamePatternInvalid,
            Error::ClockUnavailable => ErrorView::ClockUnavailable,
        }
    }
}

/// View of a result whose error is an `Error`.
pub open spec fn result_view<T>(r: Result<T, Error>) -> Result<T, ErrorView> {
    match r {
        Ok(v) => Ok(v),
        Err(e) => Err(e@),
    }
}

impl Error {
    /// The message shown for this error.
    pub open spec fn spec_message(&self) -> Seq<char> {
        match self {
            Error::InvalidHdrBuffer => "HDR 像素缓冲区长度无效"@,
            Error::InvalidWgcHdrBuffer => "WGC HDR 像素缓冲区长度无效"@,
            Error::RegionOutsideMonitor => "选中的区域不在鼠标所在屏幕内"@,
            Error::NoActiveWindow => "未找到当前应用窗口"@,
            Error::NoRegionSelected => "未选择区域"@,
            Error::Rgba8BufferConversion => "转换 WGC RGBA8 缓冲区失败"@,
            Error::HotkeyNeedsModifier(v) => "快捷键至少需要一个修饰键: "@ + v@,
            Error::UnknownHotkeyId(id) => "未知快捷键编号: "@ + crate::text::signed_decimal(*id as int),
            Error::HotkeyMissingKey => "快捷键缺少主按键"@,
            Error::UnsupportedKey(v) => "不支持的按键: "@ + v@,
            Error::HotkeyLoopFailed => "监听快捷键消息失败"@,
            Error::RegionLoopFailed => "监听区域框选消息失败"@,
            Error::DisplayConfigQueryFailed(code) => "查询显示配置失败: "@ + crate::text::signed_decimal(*code as int),
            Error::DisplaySourceNameFailed(code) => "读取显示源名称失败: "@ + crate::text::signed_decimal(*code as int),
            Error::FileNamePatternInvalid => "文件名格式无效"@,
            Error::ClockUnavailable => "读取系统时间失败"@,
        }
    }

    /// The message shown for this error.
    pub fn message(&self) -> (m: String)
        ensures
            m@ == self.spec_message(),
    {
        match self {
            Error::InvalidHdrBuffer => to_owned_string("HDR 像素缓冲区长度无效"),
            Error::InvalidWgcHdrBuffer => to_owned_string("WGC HDR 像素缓冲区长度无效"),
            Error::RegionOutsideMonitor => to_owned_string("选中的区域不在鼠标所在屏幕内"),
            Error::NoActiveWindow => to_owned_string("未找到当前应用窗口"),
            Error::NoRegionSelected => to_owned_string("未选择区域"),
            Error::Rgba8BufferConversion => to_owned_string("转换 WGC RGBA8 缓冲区失败"),
            Error::HotkeyNeedsModifier(v) => {
                let mut m = to_owned_string("快捷键至少需要一个修饰键: ");
                m.append(v.as_str());
                m
            },
            Error::UnknownHotkeyId(id) => {
                let mut m = to_owned_string("未知快捷键编号: ");
                push_signed_decimal(&mut m, *id as i64);
                m
            },
            Error::HotkeyMissingKey => to_owned_string("快捷键缺少主按键"),
            Error::UnsupportedKey(v) => {
                let mut m = to_owned_string("不支持的按键: ");
                m.append(v.as_str());
                m
            },
            Error::HotkeyLoopFailed => to_owned_string("监听快捷键消息失败"),
            Error::RegionLoopFailed => to_owned_string("监听区域框选消息失败"),
            Error::DisplayConfigQueryFailed(code) => {
                let mut m = to_owned_string("查询显示配置失败: ");
                push_signed_decimal(&mut m, *code as i64);
                m
            },
            Error::DisplaySourceNameFailed(code) => {
                let mut m = to_owned_string("读取显示源名称失败: ");
                push_signed_decimal(&mut m, *code as i64);
                m
            },
            Error::FileNamePatternInvalid => to_owned_string("文件名格式无效"),
            Error::ClockUnavailable => to_owned_string("读取系统时间失败"),
        }
    }
}

} // verus!
