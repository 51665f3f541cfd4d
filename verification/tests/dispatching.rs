use v1060p_driver::dispatcher::{
    virtual_pen_keys, DeviceDispatcher, HOLD, MAX_X, MAX_Y, MEDIA_BUTTON_WIDTH, MEDIA_BUTTONS_COUNT,
    PRESSED, RELEASED,
};
use v1060p_driver::events::{Emission, Event, EventCode, Key, OutputDevice};
use v1060p_driver::packet::RawDataReader;

fn key(device: OutputDevice, k: Key, value: i32) -> Emission {
    Emission { device, events: vec![Event { code: EventCode::Key(k), value }] }
}

fn syn(device: OutputDevice) -> Emission {
    Emission { device, events: vec![Event { code: EventCode::SynReport, value: 0 }] }
}

fn pen_packet(x: i32, y: i32, p: i32) -> Emission {
    Emission {
        device: OutputDevice::Pen,
        events: vec![
            Event { code: EventCode::AbsX, value: x },
            Event { code: EventCode::AbsY, value: y },
            Event { code: EventCode::AbsPressure, value: p },
            Event { code: EventCode::Key(Key::BtnToolPen), value: 1 },
        ],
    }
}

/// A report with the pen at (`x`, `y`), pen button byte `pen`, and
/// express-key word `keys` (a clear bit is a held key).
fn report(x: i16, y: i16, pen: u8, keys: u16) -> RawDataReader {
    let mut r = RawDataReader::new();
    let xb = x.to_be_bytes();
    let yb = y.to_be_bytes();
    r.data[1] = xb[0];
    r.data[2] = xb[1];
    r.data[3] = yb[0];
    r.data[4] = yb[1];
    r.data[5] = 0x07;
    r.data[6] = 0xd0;
    r.data[9] = pen;
    r.data[11] = (keys & 0xff) as u8;
    r.data[12] = (keys >> 8) as u8;
    r
}

/// A dispatcher that has seen a report with pen byte `pen` and express-key
/// word `keys`, the pen hovering.
fn after_report(pen: u8, keys: u16) -> DeviceDispatcher {
    let mut d = DeviceDispatcher::new();
    let _ = d.dispatch(&report(0, 0, pen, keys), 0, 0, 0);
    d
}

#[test]
fn new_dispatcher_starts_with_everything_up() {
    let d = DeviceDispatcher::new();
    assert_eq!(d.tablet_last_raw_pressed_buttons(), 0xFFFF);
    assert_eq!(d.pen_last_raw_pressed_button(), 0);
    assert_eq!(d.last_pressed_media_button(), 0);
    assert!(!d.was_touching());
    assert!(!d.media_key_held());
    assert_eq!(d.media_button_width(), 409);
    assert_eq!(MEDIA_BUTTON_WIDTH, MAX_X / MEDIA_BUTTONS_COUNT);
}

#[test]
fn default_key_tables() {
    let d = DeviceDispatcher::new();
    assert_eq!(d.media_button_keys(0), Some(vec![Key::KeyMute]));
    assert_eq!(d.media_button_keys(9), Some(vec![Key::KeyLeftMeta, Key::KeyD]));
    assert_eq!(d.media_button_keys(10), None);
    assert_eq!((0..=255u8).filter(|&i| d.media_button_keys(i).is_some()).count(), 10);
    assert_eq!(d.tablet_button_keys(7), Some(vec![Key::KeyLeftCtrl, Key::KeyKpMinus]));
    assert_eq!(d.tablet_button_keys(13), Some(vec![Key::KeyRightBrace]));
    assert_eq!(d.tablet_button_keys(10), None);
    assert_eq!(d.tablet_button_keys(11), None);
    assert_eq!((0..=255u8).filter(|&i| d.tablet_button_keys(i).is_some()).count(), 12);
    assert_eq!(d.pen_button_keys(4), Some(vec![Key::BtnStylus]));
    assert_eq!(d.pen_button_keys(6), Some(vec![Key::BtnStylus2]));
    assert_eq!((0..=255u8).filter(|&i| d.pen_button_keys(i).is_some()).count(), 2);
}

#[test]
fn emitted_key_sets() {
    let d = DeviceDispatcher::new();
    let mut pen = d.pen_emitted_keys();
    pen.sort_by_key(|k| *k as u8);
    assert_eq!(pen, vec![Key::BtnStylus, Key::BtnStylus2]);
    let tablet = d.tablet_emitted_keys();
    for k in [Key::KeyTab, Key::KeySpace, Key::KeyLeftAlt, Key::KeyLeftCtrl, Key::KeyPageUp,
        Key::KeyPageDown, Key::KeyLeftBrace, Key::KeyKpMinus, Key::KeyKpPlus, Key::KeyEsc, Key::KeyB,
        Key::KeyRightBrace] {
        assert!(tablet.contains(&k));
    }
    assert!(!tablet.contains(&Key::KeyMute));
    let media = d.media_emitted_keys();
    assert!(media.contains(&Key::KeyD) && media.contains(&Key::KeyCalc));
    assert!(!media.contains(&Key::KeyTab));
}

#[test]
fn pen_device_keys_add_tool_and_mouse_buttons() {
    let keys = virtual_pen_keys(&vec![Key::BtnStylus]);
    assert_eq!(keys, vec![Key::BtnStylus, Key::BtnToolPen, Key::BtnLeft, Key::BtnRight]);
}

#[test]
fn syn_closes_keyboard_then_pen() {
    let d = DeviceDispatcher::new();
    assert_eq!(d.syn(), vec![syn(OutputDevice::Keyboard), syn(OutputDevice::Pen)]);
}

#[test]
fn express_key_press_hold_release() {
    let d = DeviceDispatcher::new();
    assert_eq!(
        d.emit_tablet_key_event(0, 0xfffe),
        vec![key(OutputDevice::Keyboard, Key::KeyTab, PRESSED), syn(OutputDevice::Keyboard)]
    );
    let d = after_report(0, 0xfffe);
    assert_eq!(d.tablet_last_raw_pressed_buttons(), 0xfffe);
    assert_eq!(
        d.emit_tablet_key_event(0, 0xfffe),
        vec![key(OutputDevice::Keyboard, Key::KeyTab, HOLD), syn(OutputDevice::Keyboard)]
    );
    assert_eq!(
        d.emit_tablet_key_event(0, 0xffff),
        vec![key(OutputDevice::Keyboard, Key::KeyTab, RELEASED), syn(OutputDevice::Keyboard)]
    );
    assert_eq!(d.emit_tablet_key_event(1, 0xffff), vec![]);
}

#[test]
fn express_key_with_two_keys_and_unmapped_key() {
    let d = DeviceDispatcher::new();
    assert_eq!(
        d.emit_tablet_key_event(8, 0xfeff),
        vec![
            key(OutputDevice::Keyboard, Key::KeyLeftCtrl, PRESSED),
            key(OutputDevice::Keyboard, Key::KeyKpPlus, PRESSED),
            syn(OutputDevice::Keyboard)
        ]
    );
    assert_eq!(d.emit_tablet_key_event(10, 0xfbff), vec![]);
    assert_eq!(d.emit_tablet_key_event(15, 0x7fff), vec![]);
}

#[test]
fn all_express_keys_in_order() {
    let d = DeviceDispatcher::new();
    assert_eq!(
        d.binary_flags_to_tablet_key_events(0xdffe),
        vec![
            key(OutputDevice::Keyboard, Key::KeyTab, PRESSED),
            syn(OutputDevice::Keyboard),
            key(OutputDevice::Keyboard, Key::KeyRightBrace, PRESSED),
            syn(OutputDevice::Keyboard)
        ]
    );
    assert_eq!(d.binary_flags_to_tablet_key_events(0xffff), vec![]);
}

#[test]
fn tablet_events_remember_the_word() {
    let mut d = DeviceDispatcher::new();
    let r = report(0, 0, 2, 0xffef);
    let e = d.emit_tablet_events(&r);
    assert_eq!(e, vec![key(OutputDevice::Keyboard, Key::KeyPageUp, PRESSED), syn(OutputDevice::Keyboard)]);
    assert_eq!(d.tablet_last_raw_pressed_buttons(), 0xffef);
}

#[test]
fn pen_button_transitions() {
    let d = after_report(2, 0xffff);
    assert_eq!(d.raw_pen_buttons_to_pen_key_events(4), vec![key(OutputDevice::Pen, Key::BtnStylus, PRESSED)]);
    assert_eq!(d.raw_pen_buttons_to_pen_key_events(6), vec![key(OutputDevice::Pen, Key::BtnStylus2, PRESSED)]);
    assert_eq!(d.raw_pen_buttons_to_pen_key_events(2), vec![]);
    let d = after_report(6, 0xffff);
    assert_eq!(d.raw_pen_buttons_to_pen_key_events(2), vec![key(OutputDevice::Pen, Key::BtnStylus2, RELEASED)]);
    assert_eq!(d.raw_pen_buttons_to_pen_key_events(6), vec![key(OutputDevice::Pen, Key::BtnStylus2, HOLD)]);
    assert_eq!(d.raw_pen_buttons_to_pen_key_events(4), vec![]);
    let d = after_report(0, 0xffff);
    assert_eq!(d.raw_pen_buttons_to_pen_key_events(0), vec![]);
}

#[test]
fn pen_position_is_clamped_and_batched() {
    assert_eq!(
        DeviceDispatcher::raw_pen_abs_to_pen_abs_events(100, 200, 300, false),
        vec![pen_packet(100, 200, 300)]
    );
    assert_eq!(
        DeviceDispatcher::raw_pen_abs_to_pen_abs_events(-5, 5000, 0, false),
        vec![pen_packet(0, MAX_Y, 0)]
    );
    assert_eq!(
        DeviceDispatcher::raw_pen_abs_to_pen_abs_events(9000, -1, 7, false),
        vec![pen_packet(MAX_X, 0, 7)]
    );
    assert_eq!(DeviceDispatcher::raw_pen_abs_to_pen_abs_events(100, 200, 300, true), vec![]);
}

#[test]
fn media_position_rounds_toward_zero_and_wraps_to_a_byte() {
    assert_eq!(DeviceDispatcher::media_button_index(0, 409), 0);
    assert_eq!(DeviceDispatcher::media_button_index(408, 409), 0);
    assert_eq!(DeviceDispatcher::media_button_index(409, 409), 1);
    assert_eq!(DeviceDispatcher::media_button_index(4095, 409), 10);
    assert_eq!(DeviceDispatcher::media_button_index(-1, 409), 0);
    assert_eq!(DeviceDispatcher::media_button_index(-409, 409), 255);
    assert_eq!(DeviceDispatcher::media_button_index(i32::MIN, 1), 0);
    assert_eq!(DeviceDispatcher::media_button_index(300, 1), 44);
}

#[test]
fn pressure_threshold() {
    assert_eq!(DeviceDispatcher::pressure_above_threshold(2000, 510), None);
    assert_eq!(DeviceDispatcher::pressure_above_threshold(1490, 510), None);
    assert_eq!(DeviceDispatcher::pressure_above_threshold(1489, 510), Some(511));
    assert_eq!(DeviceDispatcher::pressure_above_threshold(1000, 510), Some(1000));
    assert_eq!(DeviceDispatcher::pressure_above_threshold(2100, 0), None);
    assert_eq!(DeviceDispatcher::pressure_above_threshold(0, 0), Some(2000));
}

#[test]
fn touch_in_drawing_area_lift_sends_only_touch() {
    let mut d = DeviceDispatcher::new();
    assert_eq!(
        d.pen_emit_touch(100, false, 50),
        vec![key(OutputDevice::MediaKeyboard, Key::KeyMute, RELEASED), key(OutputDevice::Pen, Key::BtnTouch, PRESSED)]
    );
    assert!(d.was_touching());
    assert!(!d.media_key_held());
    assert_eq!(d.pen_emit_touch(120, false, 60), vec![]);
    assert_eq!(d.pen_emit_touch(130, false, 0), vec![key(OutputDevice::Pen, Key::BtnTouch, RELEASED)]);
    assert!(!d.was_touching());
    assert_eq!(d.last_pressed_media_button(), 0);
}

#[test]
fn touch_on_media_strip_presses_and_releases_the_key_under_the_pen() {
    let mut d = DeviceDispatcher::new();
    assert_eq!(d.pen_emit_touch(900, true, 10), vec![key(OutputDevice::MediaKeyboard, Key::KeyVolumeUp, PRESSED)]);
    assert_eq!(d.last_pressed_media_button(), 2);
    assert!(d.media_key_held());
    assert_eq!(d.pen_emit_touch(3000, true, 0), vec![key(OutputDevice::MediaKeyboard, Key::KeyVolumeUp, RELEASED)]);
    assert_eq!(d.last_pressed_media_button(), 2);
    assert!(!d.media_key_held());
    assert_eq!(
        d.pen_emit_touch(3700, true, 10),
        vec![
            key(OutputDevice::MediaKeyboard, Key::KeyLeftMeta, PRESSED),
            key(OutputDevice::MediaKeyboard, Key::KeyD, PRESSED)
        ]
    );
    assert_eq!(d.last_pressed_media_button(), 9);
}

#[test]
fn media_touch_lifted_over_drawing_area_releases_key_and_touch() {
    let mut d = DeviceDispatcher::new();
    let _ = d.pen_emit_touch(900, true, 10);
    assert_eq!(
        d.pen_emit_touch(1000, false, 0),
        vec![
            key(OutputDevice::MediaKeyboard, Key::KeyVolumeUp, RELEASED),
            key(OutputDevice::Pen, Key::BtnTouch, RELEASED)
        ]
    );
    // the next contact over the drawing area releases the remembered media
    // key as it comes down, and nothing media-wise as it lifts
    assert_eq!(
        d.pen_emit_touch(1000, false, 10),
        vec![key(OutputDevice::MediaKeyboard, Key::KeyVolumeUp, RELEASED), key(OutputDevice::Pen, Key::BtnTouch, PRESSED)]
    );
    assert_eq!(d.pen_emit_touch(1000, false, 0), vec![key(OutputDevice::Pen, Key::BtnTouch, RELEASED)]);
}

#[test]
fn drawing_touch_lifted_over_media_strip_sends_nothing() {
    let mut d = DeviceDispatcher::new();
    let _ = d.pen_emit_touch(900, false, 10);
    assert_eq!(d.pen_emit_touch(900, true, 0), vec![]);
    assert!(!d.was_touching());
}

#[test]
fn touch_beyond_the_last_media_key_sends_nothing() {
    let mut d = DeviceDispatcher::new();
    assert_eq!(d.pen_emit_touch(4095, true, 10), vec![]);
    assert_eq!(d.last_pressed_media_button(), 10);
    assert_eq!(d.pen_emit_touch(4095, true, 0), vec![]);
}

#[test]
fn dispatch_of_a_stroke_start() {
    let mut d = after_report(2, 0xffff);
    let r = report(1000, 1500, 4, 0xfffe);
    assert!(d.starts_stroke(700));
    let e = d.dispatch(&r, 990, 1490, 700);
    assert_eq!(
        e,
        vec![
            key(OutputDevice::Pen, Key::BtnStylus, PRESSED),
            pen_packet(1000, 1500, 700),
            key(OutputDevice::MediaKeyboard, Key::KeyMute, RELEASED),
            key(OutputDevice::Pen, Key::BtnTouch, PRESSED),
            key(OutputDevice::Keyboard, Key::KeyTab, PRESSED),
            syn(OutputDevice::Keyboard)
        ]
    );
    assert_eq!(d.pen_last_raw_pressed_button(), 4);
    assert_eq!(d.tablet_last_raw_pressed_buttons(), 0xfffe);
    assert!(d.was_touching());
    assert!(!d.starts_stroke(700));
}

#[test]
fn stroke_snaps_to_pen_down_point_then_follows_smoothing() {
    let mut d = DeviceDispatcher::new();
    // hovering: the caller's smoothed position is used
    let e = d.dispatch(&report(3000, 3000, 2, 0xffff), 500, 600, 0);
    assert_eq!(e, vec![pen_packet(500, 600, 0)]);
    // pen down: the report's own position, not the smoothed one
    let e = d.dispatch(&report(3000, 3000, 2, 0xffff), 800, 900, 100);
    assert_eq!(
        e,
        vec![
            pen_packet(3000, 3000, 100),
            key(OutputDevice::MediaKeyboard, Key::KeyMute, RELEASED),
            key(OutputDevice::Pen, Key::BtnTouch, PRESSED)
        ]
    );
    // still down: the smoothed position again
    let e = d.dispatch(&report(3100, 3100, 2, 0xffff), 3050, 3050, 100);
    assert_eq!(e, vec![pen_packet(3050, 3050, 100)]);
}

#[test]
fn dispatch_over_media_strip_moves_no_pen() {
    let mut d = after_report(2, 0xffff);
    let r = report(2100, -30, 2, 0xffff);
    let e = d.dispatch(&r, 1700, -30, 400);
    assert_eq!(e, vec![key(OutputDevice::MediaKeyboard, Key::KeyPreviousSong, PRESSED)]);
    assert_eq!(d.last_pressed_media_button(), 5);
}

#[test]
fn repeated_report_only_holds() {
    let mut d = after_report(2, 0xffff);
    let r = report(1000, 1500, 6, 0xfbfe);
    let _ = d.dispatch(&r, 1000, 1500, 300);
    let tablet_before = d.tablet_last_raw_pressed_buttons();
    let second = d.dispatch(&r, 1000, 1500, 300);
    assert_eq!(
        second,
        vec![
            key(OutputDevice::Pen, Key::BtnStylus2, HOLD),
            pen_packet(1000, 1500, 300),
            key(OutputDevice::Keyboard, Key::KeyTab, HOLD),
            syn(OutputDevice::Keyboard)
        ]
    );
    assert_eq!(d.tablet_last_raw_pressed_buttons(), tablet_before);
    assert!(d.was_touching());
}

#[test]
fn media_release_reaches_the_pressed_key() {
    let mut d = DeviceDispatcher::new();
    let press = d.pen_emit_touch(1300, true, 5);
    assert_eq!(d.pen_emit_touch(3000, true, 9), vec![]);
    assert_eq!(d.pen_emit_touch(2000, false, 9), vec![]);
    assert_eq!(d.pen_emit_touch(200, true, 1), vec![]);
    let release = d.pen_emit_touch(10, true, 0);
    assert_eq!(press, vec![key(OutputDevice::MediaKeyboard, Key::KeyPlayer, PRESSED)]);
    assert_eq!(release, vec![key(OutputDevice::MediaKeyboard, Key::KeyPlayer, RELEASED)]);
}

#[test]
fn express_key_press_then_release_across_reports() {
    let mut d = DeviceDispatcher::new();
    let down = d.dispatch(&report(0, 0, 2, 0xfffd), 0, 0, 0);
    let up = d.dispatch(&report(0, 0, 2, 0xffff), 0, 0, 0);
    assert_eq!(&down[1..], &[key(OutputDevice::Keyboard, Key::KeySpace, PRESSED), syn(OutputDevice::Keyboard)]);
    assert_eq!(&up[1..], &[key(OutputDevice::Keyboard, Key::KeySpace, RELEASED), syn(OutputDevice::Keyboard)]);
}

#[test]
fn first_report_only_presses_express_keys() {
    let d = DeviceDispatcher::new();
    let e = d.binary_flags_to_tablet_key_events(0x0000);
    assert!(!e.is_empty());
    for emission in &e {
        assert_eq!(emission.device, OutputDevice::Keyboard);
        for event in &emission.events {
            assert!(event.code == EventCode::SynReport || event.value == PRESSED);
        }
    }
    // twelve express keys, one synchronization report each
    assert_eq!(e.iter().filter(|em| em.events[0].code == EventCode::SynReport).count(), 12);
}

#[test]
fn side_button_press_then_release() {
    let mut d = after_report(2, 0xffff);
    let down = d.dispatch(&report(10, 10, 4, 0xffff), 10, 10, 0);
    let up = d.dispatch(&report(10, 10, 2, 0xffff), 10, 10, 0);
    assert_eq!(down[0], key(OutputDevice::Pen, Key::BtnStylus, PRESSED));
    assert_eq!(up[0], key(OutputDevice::Pen, Key::BtnStylus, RELEASED));
    assert_eq!(down.len(), 2);
    assert_eq!(up.len(), 2);
}
