use bite_screenshot::capture::{
    after_save, capture_color_format, capture_crop, capture_path, capture_rect_for,
    captured_image_from_frame, frame_from_bytes, AfterSave, CaptureKind, CapturedFrame,
    CapturedImage, ColorFormat,
};
use bite_screenshot::config::Config;
use bite_screenshot::error::Error;
use bite_screenshot::geometry::{CaptureRect, Rect};
use bite_screenshot::pixels::{
    bgra_to_rgba, bytes_to_u16_le, half_to_f32_bits, rgba16f_sc_rgb_to_gbrpf32le,
};
use bite_screenshot::system::{
    advanced_color_active, avif_encoder_args, hdr_display_path, display_query_step, encoder_failure_message,
    module_app_name, notification_text, region_selector_class_name, wide_array_to_string,
    window_title_from_units, DisplayQueryStep,
};
use bite_screenshot::text::{encode_wide, replace_str, trim_str};

fn rect(left: i32, top: i32, right: i32, bottom: i32) -> Rect {
    Rect { left, top, right, bottom }
}

#[test]
fn half_floats_convert_exactly() {
    assert_eq!(half_to_f32_bits(0x0000), 0x0000_0000);
    assert_eq!(half_to_f32_bits(0x8000), 0x8000_0000);
    assert_eq!(half_to_f32_bits(0x3C00), 0x3F80_0000);
    assert_eq!(half_to_f32_bits(0xC000), 0xC000_0000);
    assert_eq!(half_to_f32_bits(0x0001), 0x3380_0000);
    assert_eq!(half_to_f32_bits(0x03FF), 0x387F_C000);
    assert_eq!(half_to_f32_bits(0x7BFF), 0x477F_E000);
    assert_eq!(half_to_f32_bits(0x7C00), 0x7F80_0000);
    assert_eq!(half_to_f32_bits(0xFC00), 0xFF80_0000);
    assert_eq!(half_to_f32_bits(0x7E00), 0x7FC0_0000);
}

fn half_value(h: u16) -> f64 {
    let sign = if h & 0x8000 != 0 { -1.0 } else { 1.0 };
    let e = ((h >> 10) & 0x1F) as i32;
    let m = (h & 0x3FF) as f64;
    if e == 0 {
        sign * m * 2f64.powi(-24)
    } else {
        sign * (1.0 + m / 1024.0) * 2f64.powi(e - 15)
    }
}

#[test]
fn every_finite_half_keeps_its_value() {
    for h in 0u16..=0xFFFF {
        if (h >> 10) & 0x1F == 0x1F {
            continue;
        }
        let f = f32::from_bits(half_to_f32_bits(h));
        assert_eq!(f as f64, half_value(h), "half {h:#06x}");
    }
}

#[test]
fn planar_float_output() {
    let pixels = [0x3C00u16, 0x4000, 0x3800, 0x3C00, 0x0000, 0xBC00, 0x7C00, 0x0000];
    let out = rgba16f_sc_rgb_to_gbrpf32le(&pixels).unwrap();
    assert_eq!(out.len(), 3 * pixels.len());
    let g: Vec<u8> = [2.0f32.to_le_bytes(), (-1.0f32).to_le_bytes()].concat();
    let b: Vec<u8> = [0.5f32.to_le_bytes(), f32::INFINITY.to_le_bytes()].concat();
    let r: Vec<u8> = [1.0f32.to_le_bytes(), 0.0f32.to_le_bytes()].concat();
    assert_eq!(out, [g, b, r].concat());
    assert!(matches!(rgba16f_sc_rgb_to_gbrpf32le(&pixels[..3]), Err(Error::InvalidHdrBuffer)));
    assert_eq!(rgba16f_sc_rgb_to_gbrpf32le(&[]).unwrap(), Vec::<u8>::new());
}

#[test]
fn byte_buffers() {
    assert_eq!(bytes_to_u16_le(&[0x34, 0x12, 0xFF, 0x00]).unwrap(), vec![0x1234, 0x00FF]);
    match bytes_to_u16_le(&[1, 2, 3]) {
        Err(e) => assert_eq!(e.message(), "WGC HDR 像素缓冲区长度无效"),
        Ok(v) => panic!("{v:?}"),
    }
    assert_eq!(bgra_to_rgba(vec![1, 2, 3, 4, 5, 6, 7, 8, 9]), vec![3, 2, 1, 4, 7, 6, 5, 8, 9]);
    let bytes = vec![9, 8, 7, 6, 5, 4, 3, 2, 1, 0];
    assert_eq!(bgra_to_rgba(bgra_to_rgba(bytes.clone())), bytes);
}

#[test]
fn frames_and_images() {
    assert_eq!(capture_color_format(true), ColorFormat::Rgba16F);
    assert_eq!(capture_color_format(false), ColorFormat::Rgba8);
    match frame_from_bytes(ColorFormat::Bgra8, 1, 1, vec![1, 2, 3, 4]).unwrap() {
        CapturedFrame::Rgba8 { width, height, pixels } => {
            assert_eq!((width, height), (1, 1));
            assert_eq!(pixels, vec![3, 2, 1, 4]);
        }
        CapturedFrame::Rgba16Float { .. } => panic!("wrong frame"),
    }
    match frame_from_bytes(ColorFormat::Rgba16F, 1, 1, vec![0, 0x3C, 0, 0x40, 0, 0x38, 0, 0x3C]).unwrap() {
        CapturedFrame::Rgba16Float { pixels, .. } => assert_eq!(pixels, vec![0x3C00, 0x4000, 0x3800, 0x3C00]),
        CapturedFrame::Rgba8 { .. } => panic!("wrong frame"),
    }
    assert!(matches!(frame_from_bytes(ColorFormat::Rgba16F, 1, 1, vec![0, 1, 2]), Err(Error::InvalidWgcHdrBuffer)));
    let frame = frame_from_bytes(ColorFormat::Rgba8, 2, 1, vec![1, 2, 3, 4, 5, 6, 7, 8]).unwrap();
    let image = captured_image_from_frame(frame).unwrap();
    assert!(!image.is_hdr());
    assert_eq!(image.extension(), ".png");
    match image {
        CapturedImage::SdrRgba8 { width, height, pixels } => {
            assert_eq!((width, height), (2, 1));
            assert_eq!(pixels, vec![1, 2, 3, 4, 5, 6, 7, 8]);
        }
        CapturedImage::HdrRgba16Float { .. } => panic!("wrong image"),
    }
    let short = CapturedFrame::Rgba8 { width: 2, height: 2, pixels: vec![0; 15] };
    match captured_image_from_frame(short) {
        Err(e) => assert_eq!(e.message(), "转换 WGC RGBA8 缓冲区失败"),
        Ok(_) => panic!("short buffer accepted"),
    }
    let hdr = captured_image_from_frame(CapturedFrame::Rgba16Float { width: 1, height: 1, pixels: vec![0; 4] }).unwrap();
    assert!(hdr.is_hdr());
    assert_eq!(hdr.extension(), ".avif");
}

#[test]
fn capture_rectangles() {
    let monitor = rect(0, 0, 1920, 1080);
    assert_eq!(capture_rect_for(CaptureKind::FullScreen, None, None, monitor).unwrap(), None);
    assert_eq!(
        capture_rect_for(CaptureKind::CurrentWindow, Some(rect(-10, -10, 500, 400)), None, monitor).unwrap(),
        Some(rect(0, 0, 500, 400))
    );
    match capture_rect_for(CaptureKind::CurrentWindow, None, None, monitor) {
        Err(e) => assert_eq!(e.message(), "未找到当前应用窗口"),
        Ok(v) => panic!("{v:?}"),
    }
    match capture_rect_for(CaptureKind::SquareRegion, None, None, monitor) {
        Err(e) => assert_eq!(e.message(), "未选择区域"),
        Ok(v) => panic!("{v:?}"),
    }
    assert!(matches!(
        capture_rect_for(CaptureKind::SquareRegion, None, Some(rect(3000, 0, 3100, 10)), monitor),
        Err(Error::RegionOutsideMonitor)
    ));
    assert_eq!(capture_crop(None, monitor).unwrap(), None);
    assert_eq!(
        capture_crop(Some(rect(10, 20, 30, 40)), rect(5, 5, 100, 100)).unwrap(),
        Some(CaptureRect { left: 5, top: 15, right: 25, bottom: 35 })
    );
}

#[test]
fn after_saving() {
    let mut c = Config::default("D:\\shots".to_string());
    assert_eq!(after_save(&c, false), AfterSave { notify: true, open: false });
    c.show_notification = false;
    c.auto_open_hdr = Some(true);
    assert_eq!(after_save(&c, true), AfterSave { notify: false, open: true });
    assert_eq!(after_save(&c, false), AfterSave { notify: false, open: false });
}

#[test]
fn capture_paths() {
    let c = Config::default("D:\\shots".to_string());
    let image = CapturedImage::HdrRgba16Float { width: 1, height: 1, pixels: vec![0; 4] };
    let path = capture_path(&c, &image, CaptureKind::CurrentWindow, Some("Code")).unwrap();
    assert!(path.starts_with("D:\\shots\\"));
    assert!(path.ends_with("_app_Code.avif"));
}

#[test]
fn display_queries() {
    assert_eq!(display_query_step(0, 1), DisplayQueryStep::Done);
    assert_eq!(display_query_step(122, 1), DisplayQueryStep::Retry);
    assert_eq!(display_query_step(122, 3), DisplayQueryStep::Fail(122));
    assert_eq!(display_query_step(87, 1), DisplayQueryStep::Fail(87));
    assert!(advanced_color_active(0b11));
    assert!(advanced_color_active(0b111));
    assert!(!advanced_color_active(0b01));
    assert!(!advanced_color_active(0b10));
    assert_eq!(bite_screenshot::system::display_query_error(87).message(), "查询显示配置失败: 87");
}

#[test]
fn wide_strings() {
    assert_eq!(wide_array_to_string(&[0x48, 0x69, 0, 0x41]), "Hi");
    assert_eq!(wide_array_to_string(&[0x48, 0x69]), "Hi");
    assert_eq!(wide_array_to_string(&[0, 0x41]), "");
    assert_eq!(wide_array_to_string(&[0xD83D, 0xDE00, 0]), "😀");
    assert_eq!(wide_array_to_string(&[0xD83D, 0x41]), "\u{FFFD}A");
    assert_eq!(encode_wide("a😀"), vec![0x61, 0xD83D, 0xDE00, 0]);
    let expected: Vec<u16> = "BiteScreenshotRegionSelector".encode_utf16().chain(std::iter::once(0)).collect();
    assert_eq!(region_selector_class_name(), expected);
    let units: Vec<u16> = "记事本".encode_utf16().collect();
    assert_eq!(window_title_from_units(&units), "记事本");
}

#[test]
fn module_names() {
    let units = |s: &str| s.encode_utf16().collect::<Vec<u16>>();
    assert_eq!(module_app_name(&units("notepad.exe")), "notepad");
    assert_eq!(module_app_name(&units("odd.exe.exe")), "odd");
    assert_eq!(module_app_name(&units("Code.EXE")), "Code.EXE");
    assert_eq!(module_app_name(&units(".exe")), "");
}

#[test]
fn notification_and_encoder_texts() {
    assert_eq!(notification_text(CaptureKind::FullScreen), "截图方式：全屏");
    assert_eq!(notification_text(CaptureKind::SquareRegion), "截图方式：区域");
    assert_eq!(encoder_failure_message(b"  oops \n"), "ffmpeg 写入 HDR AVIF 失败: oops");
    assert_eq!(encoder_failure_message(b" \t\n"), "ffmpeg 写入 HDR AVIF 失败");
    assert_eq!(encoder_failure_message(&[0x66, 0xFF]), "ffmpeg 写入 HDR AVIF 失败: f\u{FFFD}");
    let args = avif_encoder_args(1920, 1080, "C:\\shots\\a.avif");
    assert_eq!(args.len(), 35);
    assert_eq!(args[9], "1920x1080");
    assert_eq!(
        args[13],
        "zscale=pin=bt709:tin=linear:min=gbr:rin=full:p=bt2020:t=smpte2084:m=bt2020nc:r=full:npl=80,format=yuv444p10le"
    );
    assert_eq!(args[34], "C:\\shots\\a.avif");
    assert_eq!(args[0], "-hide_banner");
    assert_eq!(args[33], "avif");
}

#[test]
fn text_helpers() {
    assert_eq!(replace_str("a/b/c", "/", "\\"), "a\\b\\c");
    assert_eq!(replace_str("aaa", "aa", "b"), "ba");
    assert_eq!(trim_str("\u{a0} x y \u{2028}"), "x y");
}

#[test]
fn display_path_of_a_monitor() {
    let names: Vec<Result<String, i32>> = vec![
        Ok("\\\\.\\DISPLAY1".to_string()),
        Ok("\\\\.\\DISPLAY2".to_string()),
        Err(31),
    ];
    assert_eq!(hdr_display_path("\\\\.\\DISPLAY2", &names).unwrap(), Some(1));
    assert_eq!(hdr_display_path("\\\\.\\DISPLAY1", &names).unwrap(), Some(0));
    assert_eq!(hdr_display_path("", &names).unwrap(), None);
    let error = hdr_display_path("\\\\.\\DISPLAY3", &names).unwrap_err();
    assert_eq!(error.message(), "读取显示源名称失败: 31");
    let first_fails: Vec<Result<String, i32>> = vec![Err(5), Ok("X".to_string())];
    assert!(hdr_display_path("X", &first_fails).is_err());
    let none_match: Vec<Result<String, i32>> = vec![Ok("A".to_string())];
    assert_eq!(hdr_display_path("B", &none_match).unwrap(), None);
}

#[test]
fn wide_text_round_trip() {
    for s in ["", "Hi", "记事本", "a😀b", "\\\\.\\DISPLAY1"] {
        assert_eq!(wide_array_to_string(&encode_wide(s)), s);
    }
    assert_eq!(wide_array_to_string(&[0xDE00, 0xD83D, 0]), "\u{FFFD}\u{FFFD}");
    assert_eq!(wide_array_to_string(&[0xD83D]), "\u{FFFD}");
}
