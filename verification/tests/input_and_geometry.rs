use bite_screenshot::capture::CaptureKind;
use bite_screenshot::error::Error;
use bite_screenshot::geometry::{
    clamp_point_to_rect, clamp_rect_to_monitor, client_point_from_lparam, rect_to_capture_rect,
    CaptureRect, Point, Rect,
};
use bite_screenshot::hotkey::{parse_hotkey, parse_vk};
use bite_screenshot::region::{RegionSelectionState, SelectorAction, SelectorEvent, VK_ESCAPE};
use bite_screenshot::system::{hotkey_loop_step, region_loop_step, HotkeyLoopAction, HotkeyRegistration, RegionLoopAction};

fn rect(left: i32, top: i32, right: i32, bottom: i32) -> Rect {
    Rect { left, top, right, bottom }
}

fn pt(x: i32, y: i32) -> Point {
    Point { x, y }
}

#[test]
fn key_names() {
    assert_eq!(parse_vk("0").unwrap(), 0x30);
    assert_eq!(parse_vk("9").unwrap(), 0x39);
    assert_eq!(parse_vk("a").unwrap(), 0x41);
    assert_eq!(parse_vk("z").unwrap(), 0x5A);
    assert_eq!(parse_vk("f").unwrap(), 0x46);
    assert_eq!(parse_vk("f1").unwrap(), 0x70);
    assert_eq!(parse_vk("f9").unwrap(), 0x78);
    assert_eq!(parse_vk("f10").unwrap(), 0x79);
    assert_eq!(parse_vk("f12").unwrap(), 0x7B);
    for bad in ["f13", "f0", "f01", "F1", "A", "ab", "", "enter"] {
        match parse_vk(bad) {
            Err(Error::UnsupportedKey(name)) => assert_eq!(name, bad),
            other => panic!("{bad:?} gave {other:?}"),
        }
    }
}

#[test]
fn hotkeys_are_parsed() {
    assert_eq!(parse_hotkey("Ctrl+Alt+1", 1).unwrap(), (0x4003, 0x31, CaptureKind::FullScreen));
    assert_eq!(parse_hotkey("Ctrl+Alt+2", 2).unwrap(), (0x4003, 0x32, CaptureKind::CurrentWindow));
    assert_eq!(parse_hotkey(" ctrl + SHIFT + F5 ", 3).unwrap(), (0x4006, 0x74, CaptureKind::SquareRegion));
    assert_eq!(parse_hotkey("Win+Meta+Super+x", 1).unwrap(), (0x4008, 0x58, CaptureKind::FullScreen));
    assert_eq!(parse_hotkey("a+Control+b", 1).unwrap(), (0x4002, 0x42, CaptureKind::FullScreen));
}

#[test]
fn hotkey_errors_in_order() {
    match parse_hotkey("A", 1) {
        Err(e) => {
            assert!(matches!(e, Error::HotkeyNeedsModifier(ref v) if v == "A"));
            assert_eq!(e.message(), "快捷键至少需要一个修饰键: A");
        }
        Ok(v) => panic!("{v:?}"),
    }
    match parse_hotkey("Ctrl+Alt", 2) {
        Err(e) => assert_eq!(e.message(), "快捷键缺少主按键"),
        Ok(v) => panic!("{v:?}"),
    }
    match parse_hotkey("Ctrl+X", 4) {
        Err(e) => assert_eq!(e.message(), "未知快捷键编号: 4"),
        Ok(v) => panic!("{v:?}"),
    }
    match parse_hotkey("Ctrl+Enter", 9) {
        Err(e) => assert_eq!(e.message(), "不支持的按键: enter"),
        Ok(v) => panic!("{v:?}"),
    }
    match parse_hotkey("x", -5) {
        Err(e) => assert_eq!(e.message(), "快捷键至少需要一个修饰键: x"),
        Ok(v) => panic!("{v:?}"),
    }
    match parse_hotkey("Alt+x", -5) {
        Err(e) => assert_eq!(e.message(), "未知快捷键编号: -5"),
        Ok(v) => panic!("{v:?}"),
    }
    match parse_hotkey("Ctrl++1", 1) {
        Err(e) => assert_eq!(e.message(), "不支持的按键: "),
        Ok(v) => panic!("{v:?}"),
    }
}

#[test]
fn hotkey_case_does_not_matter() {
    for (text, id) in [("CTRL+ALT+A", 1), ("Shift+F11", 3), ("ctrl+alt+q", 2)] {
        let upper = parse_hotkey(text, id).unwrap();
        let lower = parse_hotkey(&text.to_ascii_lowercase(), id).unwrap();
        assert_eq!(upper, lower);
        assert!(upper.0 & 0x4000 != 0 && upper.0 & 0xF != 0);
    }
}

#[test]
fn rect_measures() {
    let r = rect(10, 20, 110, 70);
    assert_eq!(r.width(), 100);
    assert_eq!(r.height(), 50);
    assert!(!r.is_empty());
    assert_eq!(rect(5, 5, 1, 9).width(), 0);
    assert!(rect(5, 5, 1, 9).is_empty());
    assert!(rect(0, 0, 10, 0).is_empty());
    assert_eq!(rect(i32::MIN, 0, i32::MAX, 1).width(), u32::MAX);
    assert_eq!(Rect::from_points(pt(5, 1), pt(2, 8)), rect(2, 1, 5, 8));
    assert_eq!(Rect::from_points(pt(2, 8), pt(5, 1)), rect(2, 1, 5, 8));
    assert_eq!(r.inset(1), rect(11, 21, 109, 69));
    assert_eq!(r.offset(-10, 5), rect(0, 25, 100, 75));
    assert_eq!(r.offset(-10, 5).offset(10, -5), r);
}

#[test]
fn clamping_to_the_monitor() {
    let monitor = rect(0, 0, 1920, 1080);
    assert_eq!(clamp_rect_to_monitor(rect(-50, 100, 300, 2000), monitor).unwrap(), rect(0, 100, 300, 1080));
    let once = clamp_rect_to_monitor(rect(-50, -50, 5000, 500), monitor).unwrap();
    assert_eq!(clamp_rect_to_monitor(once, monitor).unwrap(), once);
    match clamp_rect_to_monitor(rect(2000, 0, 2500, 100), monitor) {
        Err(e) => assert_eq!(e.message(), "选中的区域不在鼠标所在屏幕内"),
        Ok(r) => panic!("{r:?}"),
    }
    let second = rect(1920, -200, 3840, 880);
    assert_eq!(
        rect_to_capture_rect(rect(1900, 0, 2000, 100), second).unwrap(),
        CaptureRect { left: 0, top: 200, right: 80, bottom: 300 }
    );
    assert!(matches!(rect_to_capture_rect(rect(0, 0, 10, 10), second), Err(Error::RegionOutsideMonitor)));
}

#[test]
fn points() {
    let b = rect(0, 0, 100, 50);
    assert_eq!(clamp_point_to_rect(pt(-5, 60), b), pt(0, 50));
    assert_eq!(clamp_point_to_rect(pt(30, 20), b), pt(30, 20));
    assert_eq!(clamp_point_to_rect(pt(130, -20), b), pt(100, 0));
    assert_eq!(client_point_from_lparam(0x0010_0020), pt(0x20, 0x10));
    assert_eq!(client_point_from_lparam(0xFFFF_FFFF), pt(-1, -1));
    assert_eq!(client_point_from_lparam(-1), pt(-1, -1));
    assert_eq!(client_point_from_lparam(0x7FFF_8000), pt(-32768, 32767));
}

fn act(capture: bool, release: bool, redraw: bool, destroy: bool, default: bool) -> SelectorAction {
    SelectorAction {
        capture_mouse: capture,
        release_mouse: release,
        redraw,
        destroy_window: destroy,
        default_handling: default,
    }
}

#[test]
fn drag_selects_a_region() {
    let mut s = RegionSelectionState::new(rect(1920, -200, 3840, 880));
    assert_eq!(s.client_bounds(), rect(0, 0, 1920, 1080));
    assert_eq!(s.handle(SelectorEvent::MouseMove(pt(5, 5))), act(false, false, false, false, false));
    assert!(s.current.is_none());
    assert_eq!(s.handle(SelectorEvent::LeftButtonDown(pt(100, 50))), act(true, false, true, false, false));
    assert_eq!(s.handle(SelectorEvent::MouseMove(pt(40, 9000))), act(false, false, true, false, false));
    assert_eq!(s.visible_selection(), Some(rect(40, 50, 100, 1080)));
    assert_eq!(s.selection_hole(), Some(rect(41, 51, 99, 1079)));
    assert_eq!(s.handle(SelectorEvent::LeftButtonUp(pt(10, 300))), act(false, true, false, true, false));
    assert!(s.finished);
    assert_eq!(s.result, Some(rect(1930, -150, 2020, 100)));
}

#[test]
fn click_without_drag_selects_nothing() {
    let mut s = RegionSelectionState::new(rect(0, 0, 800, 600));
    s.handle(SelectorEvent::LeftButtonDown(pt(10, 10)));
    s.handle(SelectorEvent::LeftButtonUp(pt(10, 10)));
    assert!(s.finished);
    assert_eq!(s.result, None);
}

#[test]
fn cancelling_the_selection() {
    let mut s = RegionSelectionState::new(rect(0, 0, 800, 600));
    s.handle(SelectorEvent::LeftButtonDown(pt(10, 10)));
    assert_eq!(s.handle(SelectorEvent::KeyDown(0x41)), act(false, false, false, false, true));
    assert!(!s.finished);
    assert_eq!(s.handle(SelectorEvent::KeyDown(VK_ESCAPE)), act(false, true, false, true, false));
    assert!(s.finished && s.result.is_none());
    let mut t = RegionSelectionState::new(rect(0, 0, 800, 600));
    assert_eq!(t.handle(SelectorEvent::RightButtonDown), act(false, true, false, true, false));
    assert!(t.finished && t.result.is_none());
    let mut u = RegionSelectionState::new(rect(0, 0, 800, 600));
    assert_eq!(u.handle(SelectorEvent::LeftButtonUp(pt(3, 3))), act(false, true, false, false, false));
    assert!(!u.finished);
    assert_eq!(u.handle(SelectorEvent::Destroy), act(false, false, false, false, false));
    assert!(u.finished && u.result.is_none());
}

#[test]
fn thin_selection_has_no_hole() {
    let mut s = RegionSelectionState::new(rect(0, 0, 800, 600));
    s.handle(SelectorEvent::LeftButtonDown(pt(10, 10)));
    s.handle(SelectorEvent::MouseMove(pt(12, 40)));
    assert_eq!(s.visible_selection(), Some(rect(10, 10, 12, 40)));
    assert_eq!(s.selection_hole(), None);
}

#[test]
fn message_loops() {
    let regs = vec![
        HotkeyRegistration { id: 1, kind: CaptureKind::FullScreen },
        HotkeyRegistration { id: 2, kind: CaptureKind::CurrentWindow },
        HotkeyRegistration { id: 3, kind: CaptureKind::SquareRegion },
    ];
    assert_eq!(hotkey_loop_step(-1, 0x0312, 1, &regs), HotkeyLoopAction::Fail);
    assert_eq!(hotkey_loop_step(0, 0x0312, 1, &regs), HotkeyLoopAction::Exit);
    assert_eq!(hotkey_loop_step(1, 0x0312, 2, &regs), HotkeyLoopAction::Capture(CaptureKind::CurrentWindow));
    assert_eq!(hotkey_loop_step(1, 0x0312, 7, &regs), HotkeyLoopAction::Dispatch);
    assert_eq!(hotkey_loop_step(1, 0x0100, 2, &regs), HotkeyLoopAction::Dispatch);
    assert_eq!(region_loop_step(-1), RegionLoopAction::Fail);
    assert_eq!(region_loop_step(0), RegionLoopAction::Stop);
    assert_eq!(region_loop_step(5), RegionLoopAction::Dispatch);
}
