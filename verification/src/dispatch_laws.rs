//! Properties of the dispatcher that span reports.
use vstd::prelude::*;
use crate::dispatcher::{
    button_held, dispatch_emissions, dispatch_state, media_button_at, pen_abs_emissions,
    pen_button_emissions, starts_stroke, tablet_emissions, tablet_emissions_below,
    tablet_key_emissions, touch_emissions, touch_step, unused_tablet_slot, DispatcherView, HOLD,
    MAX_X, MAX_Y, PRESSED, RELEASED, TABLET_BUTTON_SLOTS,
};
use crate::events::{
    key_event, key_events, lemma_key_events_one_batch_per_key, syn_report, Event, EventCode, Key,
    OutputDevice,
};
use crate::packet::{spec_pen_buttons, spec_tablet_flags, spec_x_axis, spec_y_axis};

verus! {

/// Every event of the batches `s` is a synchronization report or carries
/// `value`.
pub open spec fn key_values_are(s: Seq<(OutputDevice, Seq<Event>)>, value: i32) -> bool {
    forall|j: int, k: int|
        0 <= j < s.len() && 0 <= k < s[j].1.len() ==> (#[trigger] s[j].1[k]).code
            == EventCode::SynReport || s[j].1[k].value == value
}

/// The dispatcher after the contacts of a run of reports, each given as the
/// pen's horizontal position, whether it is over the media strip, and its
/// normalized pressure.
pub open spec fn touch_run(s: DispatcherView, steps: Seq<(i32, bool, i32)>) -> DispatcherView
    decreases steps.len(),
{
    if steps.len() == 0 {
        s
    } else {
        touch_run(touch_step(s, steps[0].0, steps[0].1, steps[0].2), steps.drop_first())
    }
}

/// Every report of `steps` keeps the pen on the surface.
pub open spec fn all_touching(steps: Seq<(i32, bool, i32)>) -> bool {
    forall|j: int| 0 <= j < steps.len() ==> (#[trigger] steps[j]).2 > 0
}

proof fn lemma_key_values_concat(
    a: Seq<(OutputDevice, Seq<Event>)>,
    b: Seq<(OutputDevice, Seq<Event>)>,
    value: i32,
)
    requires
        key_values_are(a, value),
        key_values_are(b, value),
    ensures
        key_values_are(a + b, value),
{
    assert forall|j: int, k: int| 0 <= j < (a + b).len() && 0 <= k < (a + b)[j].1.len() implies (#[trigger] (a
        + b)[j].1[k]).code == EventCode::SynReport || (a + b)[j].1[k].value == value by {
        if j < a.len() {
            assert((a + b)[j] == a[j]);
        } else {
            assert((a + b)[j] == b[j - a.len()]);
        }
    }
}

proof fn lemma_key_events_then_syn(keys: Seq<Key>, value: i32)
    ensures
        key_values_are(
            key_events(OutputDevice::Keyboard, keys, value).push(syn_report(OutputDevice::Keyboard)),
            value,
        ),
{
    let ke = key_events(OutputDevice::Keyboard, keys, value);
    let part = ke.push(syn_report(OutputDevice::Keyboard));
    assert forall|j: int, k: int|
        0 <= j < part.len() && 0 <= k < part[j].1.len() implies (#[trigger] part[j].1[k]).code
        == EventCode::SynReport || part[j].1[k].value == value by {
        if j < ke.len() {
            assert(part[j] == ke[j]);
        }
    }
}

/// Express keys seen in both words yield only "stays down" events.
proof fn lemma_tablet_repeat_only_holds(m: Map<u8, Seq<Key>>, flags: u16, n: nat)
    requires
        n <= 16,
    ensures
        key_values_are(tablet_emissions_below(m, flags, flags, n), HOLD),
    decreases n,
{
    if n > 0 {
        let i = (n - 1) as nat;
        lemma_tablet_repeat_only_holds(m, flags, i);
        let part = if unused_tablet_slot(i as int) {
            seq![]
        } else {
            tablet_key_emissions(m, flags, i as u8, flags)
        };
        if !unused_tablet_slot(i as int) && button_held(flags, i as u8) && m.contains_key(i as u8) {
            lemma_key_events_then_syn(m[i as u8], HOLD);
        }
        lemma_key_values_concat(tablet_emissions_below(m, flags, flags, i), part, HOLD);
    }
}

/// From the all-released word, express keys can only go down.
proof fn lemma_tablet_from_released_only_presses(m: Map<u8, Seq<Key>>, flags: u16, n: nat)
    requires
        n <= 16,
    ensures
        key_values_are(tablet_emissions_below(m, 0xFFFF, flags, n), PRESSED),
    decreases n,
{
    if n > 0 {
        let i = (n - 1) as nat;
        lemma_tablet_from_released_only_presses(m, flags, i);
        let b = i as u8;
        assert(!button_held(0xFFFF, b)) by {
            assert(b < 16 ==> 0xFFFFu16 & (1u16 << b) != 0) by (bit_vector);
        }
        let part = if unused_tablet_slot(i as int) {
            seq![]
        } else {
            tablet_key_emissions(m, 0xFFFF, b, flags)
        };
        if !unused_tablet_slot(i as int) && button_held(flags, b) && m.contains_key(b) {
            lemma_key_events_then_syn(m[b], PRESSED);
        }
        lemma_key_values_concat(tablet_emissions_below(m, 0xFFFF, flags, i), part, PRESSED);
    }
}

/// While the pen stays on the surface nothing about its contact changes,
/// and no contact event is sent.
proof fn lemma_touching_run_keeps_state(s: DispatcherView, steps: Seq<(i32, bool, i32)>)
    requires
        s.was_touching,
        all_touching(steps),
    ensures
        touch_run(s, steps) == s,
        forall|j: int|
            0 <= j < steps.len() ==> touch_emissions(s, (#[trigger] steps[j]).0, steps[j].1, steps[j].2)
                == Seq::<(OutputDevice, Seq<Event>)>::empty(),
    decreases steps.len(),
{
    if steps.len() > 0 {
        assert(steps[0].2 > 0);
        assert(touch_step(s, steps[0].0, steps[0].1, steps[0].2) == s);
        let rest = steps.drop_first();
        assert forall|j: int| 0 <= j < rest.len() implies (#[trigger] rest[j]).2 > 0 by {
            assert(rest[j] == steps[j + 1]);
        }
        lemma_touching_run_keeps_state(s, rest);
        assert forall|j: int| 0 <= j < steps.len() implies touch_emissions(
            s,
            (#[trigger] steps[j]).0,
            steps[j].1,
            steps[j].2,
        ) == Seq::<(OutputDevice, Seq<Event>)>::empty() by {
            assert(steps[j].2 > 0);
        }
    }
}

/// A fresh dispatcher, which remembers every express key as up, can only
/// report express keys going down on its first report.
pub proof fn lemma_first_report_only_presses_express_keys(m: Map<u8, Seq<Key>>, flags: u16)
    ensures
        key_values_are(tablet_emissions(m, 0xFFFF, flags), PRESSED),
{
    lemma_tablet_from_released_only_presses(m, flags, TABLET_BUTTON_SLOTS as nat);
}

/// A side button pressed in one report and let go in the next yields its
/// keys going down on the pen, then the same keys going up.
pub proof fn lemma_pen_button_press_then_release(m: Map<u8, Seq<Key>>, button: u8)
    requires
        button == 4 || button == 6,
        m.contains_key(button),
    ensures
        pen_button_emissions(m, 2, button) == key_events(OutputDevice::Pen, m[button], PRESSED),
        pen_button_emissions(m, button, 2) == key_events(OutputDevice::Pen, m[button], RELEASED),
{
}

/// A report that repeats the previous one changes nothing: the dispatcher
/// ends where it was, the contact yields no event, and every event of the
/// pen buttons and of the express keys says that a key stays down.
pub proof fn lemma_repeated_report_only_holds(
    s: DispatcherView,
    data: Seq<u8>,
    smoothed_x: i32,
    smoothed_y: i32,
    pressure: i32,
)
    ensures
        ({
            let s1 = dispatch_state(s, data, smoothed_x, smoothed_y, pressure);
            &&& dispatch_state(s1, data, smoothed_x, smoothed_y, pressure) == s1
            &&& !starts_stroke(s1, pressure)
            &&& forall|x: i32, m: bool|
                touch_emissions(s1, x, m, pressure) == Seq::<(OutputDevice, Seq<Event>)>::empty()
            &&& key_values_are(
                pen_button_emissions(s1.pen_keys, s1.pen_last_raw_pressed_button, spec_pen_buttons(data)),
                HOLD,
            )
            &&& key_values_are(
                tablet_emissions(s1.tablet_keys, s1.tablet_last_raw_pressed_buttons, spec_tablet_flags(data)),
                HOLD,
            )
        }),
{
    let s1 = dispatch_state(s, data, smoothed_x, smoothed_y, pressure);
    assert(s1.was_touching == (pressure > 0));
    lemma_tablet_repeat_only_holds(s1.tablet_keys, spec_tablet_flags(data), TABLET_BUTTON_SLOTS as nat);
    let b = spec_pen_buttons(data);
    let pb = pen_button_emissions(s1.pen_keys, b, b);
    if b != 2 && s1.pen_keys.contains_key(b) {
        assert(pb == key_events(OutputDevice::Pen, s1.pen_keys[b], HOLD));
    }
}

/// A touch of the media strip presses the keys of the position under the
/// pen; whatever reports follow while the pen stays down, wherever they put
/// it, the lift releases exactly those keys, in the same order (and, over
/// the drawing area, lifts the pen's touch).
pub proof fn lemma_media_release_reaches_pressed_key(
    s: DispatcherView,
    x: i32,
    pressure: i32,
    steps: Seq<(i32, bool, i32)>,
    lift_x: i32,
    lift_over_strip: bool,
    lift_pressure: i32,
)
    requires
        !s.was_touching,
        pressure > 0,
        all_touching(steps),
        lift_pressure <= 0,
    ensures
        ({
            let b = media_button_at(x, s.media_button_width);
            let m = s.media_keys;
            let keys = if m.contains_key(b) { m[b] } else { Seq::<Key>::empty() };
            let s1 = touch_step(s, x, true, pressure);
            let sk = touch_run(s1, steps);
            &&& touch_emissions(s, x, true, pressure) == key_events(OutputDevice::MediaKeyboard, keys, PRESSED)
            &&& forall|j: int|
                0 <= j < steps.len() ==> touch_emissions(s1, (#[trigger] steps[j]).0, steps[j].1, steps[j].2)
                    == Seq::<(OutputDevice, Seq<Event>)>::empty()
            &&& sk == s1
            &&& touch_emissions(sk, lift_x, lift_over_strip, lift_pressure) == if lift_over_strip {
                key_events(OutputDevice::MediaKeyboard, keys, RELEASED)
            } else {
                key_events(OutputDevice::MediaKeyboard, keys, RELEASED).push(
                    key_event(OutputDevice::Pen, Key::BtnTouch, RELEASED),
                )
            }
        }),
{
    let s1 = touch_step(s, x, true, pressure);
    lemma_touching_run_keeps_state(s1, steps);
    let b = media_button_at(x, s.media_button_width);
    if !s.media_keys.contains_key(b) {
        assert(key_events(OutputDevice::MediaKeyboard, Seq::<Key>::empty(), PRESSED) =~= seq![]);
        assert(key_events(OutputDevice::MediaKeyboard, Seq::<Key>::empty(), RELEASED) =~= seq![]);
    }
}

/// A contact that begins over the drawing area releases the keys of the
/// remembered media position and touches the pen down; whatever reports
/// follow while the pen stays down, its lift over the drawing area only
/// lifts the pen's touch: no media key is released on the lift.
pub proof fn lemma_drawing_contact_lift_sends_only_touch(
    s: DispatcherView,
    x: i32,
    pressure: i32,
    steps: Seq<(i32, bool, i32)>,
    lift_x: i32,
    lift_pressure: i32,
)
    requires
        !s.was_touching,
        pressure > 0,
        all_touching(steps),
        lift_pressure <= 0,
    ensures
        ({
            let b = s.last_pressed_media_button;
            let keys = if s.media_keys.contains_key(b) { s.media_keys[b] } else { Seq::<Key>::empty() };
            let s1 = touch_step(s, x, false, pressure);
            let sk = touch_run(s1, steps);
            &&& touch_emissions(s, x, false, pressure) == key_events(
                OutputDevice::MediaKeyboard,
                keys,
                RELEASED,
            ).push(key_event(OutputDevice::Pen, Key::BtnTouch, PRESSED))
            &&& sk == s1
            &&& touch_emissions(sk, lift_x, false, lift_pressure) == seq![
                key_event(OutputDevice::Pen, Key::BtnTouch, RELEASED),
            ]
        }),
{
    let s1 = touch_step(s, x, false, pressure);
    lemma_touching_run_keeps_state(s1, steps);
    assert(Seq::<(OutputDevice, Seq<Event>)>::empty().push(
        key_event(OutputDevice::Pen, Key::BtnTouch, RELEASED),
    ) =~= seq![key_event(OutputDevice::Pen, Key::BtnTouch, RELEASED)]);
    if !s.media_keys.contains_key(s.last_pressed_media_button) {
        assert(key_events(OutputDevice::MediaKeyboard, Seq::<Key>::empty(), RELEASED) =~= seq![]);
    }
}

/// A report that brings the pen down over the drawing area puts it where the
/// report says, not where the previous stroke was lifted: the position batch
/// carries the report's own coordinates, whatever smoothed position the
/// caller passes.
pub proof fn lemma_stroke_starts_at_pen_down_point(
    s: DispatcherView,
    data: Seq<u8>,
    smoothed_x: i32,
    smoothed_y: i32,
    pressure: i32,
)
    requires
        starts_stroke(s, pressure),
        spec_y_axis(data) >= 0,
    ensures
        dispatch_emissions(s, data, smoothed_x, smoothed_y, pressure) == pen_button_emissions(
            s.pen_keys,
            s.pen_last_raw_pressed_button,
            spec_pen_buttons(data),
        ) + pen_abs_emissions(spec_x_axis(data) as i32, spec_y_axis(data) as i32, pressure, false)
            + touch_emissions(s, spec_x_axis(data) as i32, false, pressure) + tablet_emissions(
            s.tablet_keys,
            s.tablet_last_raw_pressed_buttons,
            spec_tablet_flags(data),
        ),
{
}

/// Over the drawing area the pen's position and pressure travel as a
/// single batch to the pen, with the position inside the active area; over
/// the media strip nothing moves the pen and the contact only reaches the
/// media keyboard.
pub proof fn lemma_pen_position_is_one_batch_in_area(
    s: DispatcherView,
    x: i32,
    y: i32,
    pressure: i32,
)
    ensures
        pen_abs_emissions(x, y, pressure, false).len() == 1,
        pen_abs_emissions(x, y, pressure, false)[0].0 == OutputDevice::Pen,
        pen_abs_emissions(x, y, pressure, false)[0].1.len() == 4,
        0 <= pen_abs_emissions(x, y, pressure, false)[0].1[0].value <= MAX_X,
        0 <= pen_abs_emissions(x, y, pressure, false)[0].1[1].value <= MAX_Y,
        pen_abs_emissions(x, y, pressure, false)[0].1[2] == (Event {
            code: EventCode::AbsPressure,
            value: pressure,
        }),
        pen_abs_emissions(x, y, pressure, false)[0].1[0] == (Event {
            code: EventCode::AbsX,
            value: if x < 0 {
                0
            } else if x > MAX_X {
                MAX_X
            } else {
                x
            },
        }),
        pen_abs_emissions(x, y, pressure, false)[0].1[1] == (Event {
            code: EventCode::AbsY,
            value: if y < 0 {
                0
            } else if y > MAX_Y {
                MAX_Y
            } else {
                y
            },
        }),
        pen_abs_emissions(x, y, pressure, false)[0].1[3] == (Event {
            code: EventCode::Key(Key::BtnToolPen),
            value: 1,
        }),
        pen_abs_emissions(x, y, pressure, true).len() == 0,
        forall|j: int|
            0 <= j < touch_emissions(s, x, true, pressure).len() ==> (#[trigger] touch_emissions(
                s,
                x,
                true,
                pressure,
            )[j]).0 == OutputDevice::MediaKeyboard,
{
}

/// An express key that goes down in one report and up in the next yields
/// its keys going down, then the same keys going up, each time closed by a
/// synchronization report on the express-key keyboard.
pub proof fn lemma_express_key_press_then_release(
    m: Map<u8, Seq<Key>>,
    last: u16,
    i: u8,
    down: u16,
    up: u16,
)
    requires
        m.contains_key(i),
        !button_held(last, i),
        button_held(down, i),
        !button_held(up, i),
    ensures
        tablet_key_emissions(m, last, i, down) == key_events(OutputDevice::Keyboard, m[i], PRESSED).push(
            syn_report(OutputDevice::Keyboard),
        ),
        tablet_key_emissions(m, down, i, up) == key_events(OutputDevice::Keyboard, m[i], RELEASED).push(
            syn_report(OutputDevice::Keyboard),
        ),
{
}

/// Every report's pen button byte and express-key word are dispatched,
/// wherever the pen is (over the drawing area, over the media strip, or
/// out of range): the batches begin with those of the pen buttons going from
/// the remembered byte to the report's, and end with those of the express
/// keys going from the remembered word to the report's; the report's byte
/// and word are remembered.
pub proof fn lemma_dispatch_always_reports_buttons_and_express_keys(
    s: DispatcherView,
    data: Seq<u8>,
    smoothed_x: i32,
    smoothed_y: i32,
    pressure: i32,
)
    ensures
        ({
            let e = dispatch_emissions(s, data, smoothed_x, smoothed_y, pressure);
            let buttons = pen_button_emissions(
                s.pen_keys,
                s.pen_last_raw_pressed_button,
                spec_pen_buttons(data),
            );
            let keys = tablet_emissions(
                s.tablet_keys,
                s.tablet_last_raw_pressed_buttons,
                spec_tablet_flags(data),
            );
            let s1 = dispatch_state(s, data, smoothed_x, smoothed_y, pressure);
            &&& e.len() >= buttons.len() + keys.len()
            &&& e.subrange(0, buttons.len() as int) == buttons
            &&& e.subrange(e.len() - keys.len(), e.len() as int) == keys
            &&& s1.pen_last_raw_pressed_button == spec_pen_buttons(data)
            &&& s1.tablet_last_raw_pressed_buttons == spec_tablet_flags(data)
            &&& s1.media_keys == s.media_keys
            &&& s1.tablet_keys == s.tablet_keys
            &&& s1.pen_keys == s.pen_keys
        }),
{
    let e = dispatch_emissions(s, data, smoothed_x, smoothed_y, pressure);
    let buttons = pen_button_emissions(s.pen_keys, s.pen_last_raw_pressed_button, spec_pen_buttons(data));
    let keys = tablet_emissions(s.tablet_keys, s.tablet_last_raw_pressed_buttons, spec_tablet_flags(data));
    let is_multimedia_area = spec_y_axis(data) < 0;
    let pos = crate::dispatcher::pen_position(s, data, smoothed_x, smoothed_y, pressure);
    let mid = pen_abs_emissions(pos.0, pos.1, pressure, is_multimedia_area) + touch_emissions(
        s,
        pos.0,
        is_multimedia_area,
        pressure,
    );
    assert(e =~= buttons + mid + keys);
    assert(e.subrange(0, buttons.len() as int) =~= buttons);
    assert(e.subrange(e.len() - keys.len(), e.len() as int) =~= keys);
}

/// The batches of express key `i` appear, in one stretch, among those of
/// all express keys below `n`.
proof fn lemma_tablet_key_in_run(m: Map<u8, Seq<Key>>, last: u16, flags: u16, i: u8, n: nat)
    requires
        i < n <= 16,
        !unused_tablet_slot(i as int),
    ensures
        exists|off: int|
            0 <= off && off + tablet_key_emissions(m, last, i, flags).len()
                <= tablet_emissions_below(m, last, flags, n).len() && #[trigger] tablet_emissions_below(
                m,
                last,
                flags,
                n,
            ).subrange(off, off + tablet_key_emissions(m, last, i, flags).len())
                == tablet_key_emissions(m, last, i, flags),
    decreases n,
{
    let t = tablet_key_emissions(m, last, i, flags);
    let prev = tablet_emissions_below(m, last, flags, (n - 1) as nat);
    let whole = tablet_emissions_below(m, last, flags, n);
    if i == n - 1 {
        assert(whole == prev + t);
        let off = prev.len() as int;
        assert(whole.subrange(off, off + t.len()) =~= t);
    } else {
        lemma_tablet_key_in_run(m, last, flags, i, (n - 1) as nat);
        let off = choose|off: int|
            0 <= off && off + t.len() <= prev.len() && #[trigger] prev.subrange(off, off + t.len()) == t;
        let part = if unused_tablet_slot((n - 1) as int) {
            seq![]
        } else {
            tablet_key_emissions(m, last, (n - 1) as u8, flags)
        };
        assert(whole == prev + part);
        assert(whole.subrange(off, off + t.len()) =~= prev.subrange(off, off + t.len()));
    }
}

/// An express key that changes between two reports is always reported:
/// among the express-key batches there is a stretch of one batch per key
/// that the express key sends, in order, each with the key going down (if
/// the key's bit is now clear) or up (if it is now set), followed by a
/// synchronization report on the express-key keyboard.
pub proof fn lemma_changed_express_key_is_reported(
    m: Map<u8, Seq<Key>>,
    last: u16,
    flags: u16,
    i: u8,
)
    requires
        i < 14,
        i != 10,
        i != 11,
        m.contains_key(i),
        (last & (1u16 << i) == 0) != (flags & (1u16 << i) == 0),
    ensures
        exists|off: int|
            #![trigger tablet_emissions(m, last, flags)[off]]
            0 <= off && off + m[i].len() + 1 <= tablet_emissions(m, last, flags).len() && (forall|j: int|
                0 <= j < m[i].len() ==> #[trigger] tablet_emissions(m, last, flags)[off + j] == (
                    OutputDevice::Keyboard,
                    seq![
                        Event {
                            code: EventCode::Key(m[i][j]),
                            value: if flags & (1u16 << i) == 0 {
                                1i32
                            } else {
                                0i32
                            },
                        },
                    ],
                )) && tablet_emissions(m, last, flags)[off + m[i].len()] == (
                OutputDevice::Keyboard,
                seq![Event { code: EventCode::SynReport, value: 0 }],
            ),
{
    let value: i32 = if flags & (1u16 << i) == 0 {
        PRESSED
    } else {
        RELEASED
    };
    let t = tablet_key_emissions(m, last, i, flags);
    assert(t == key_events(OutputDevice::Keyboard, m[i], value).push(syn_report(OutputDevice::Keyboard)));
    lemma_key_events_one_batch_per_key(OutputDevice::Keyboard, m[i], value);
    lemma_tablet_key_in_run(m, last, flags, i, TABLET_BUTTON_SLOTS as nat);
    let whole = tablet_emissions(m, last, flags);
    let off = choose|off: int|
        0 <= off && off + t.len() <= whole.len() && #[trigger] whole.subrange(off, off + t.len()) == t;
    assert forall|j: int| 0 <= j < m[i].len() implies #[trigger] whole[off + j] == (
        OutputDevice::Keyboard,
        seq![Event { code: EventCode::Key(m[i][j]), value: value }],
    ) by {
        assert(whole[off + j] == whole.subrange(off, off + t.len())[j]);
        assert(t[j] == key_events(OutputDevice::Keyboard, m[i], value)[j]);
    }
    assert(whole[off + m[i].len()] == whole.subrange(off, off + t.len())[m[i].len() as int]);
    assert(whole[off] == whole[off]);
}

/// A side button (byte 4 or 6) pressed after none (byte 2) sends one event
/// per key of the button, in order, going down on the pen; let go (back to
/// 2) it sends the same keys, in order, going up.
pub proof fn lemma_side_button_press_and_release_events(m: Map<u8, Seq<Key>>, button: u8)
    requires
        button == 4 || button == 6,
        m.contains_key(button),
    ensures
        pen_button_emissions(m, 2, button).len() == m[button].len(),
        pen_button_emissions(m, button, 2).len() == m[button].len(),
        forall|j: int|
            0 <= j < m[button].len() ==> #[trigger] pen_button_emissions(m, 2, button)[j] == (
                OutputDevice::Pen,
                seq![Event { code: EventCode::Key(m[button][j]), value: 1 }],
            ) && pen_button_emissions(m, button, 2)[j] == (
                OutputDevice::Pen,
                seq![Event { code: EventCode::Key(m[button][j]), value: 0 }],
            ),
{
    lemma_key_events_one_batch_per_key(OutputDevice::Pen, m[button], PRESSED);
    lemma_key_events_one_batch_per_key(OutputDevice::Pen, m[button], RELEASED);
}

/// The media position chosen by a touch of the strip is the key under the
/// pen: the pen lies within that key's `width` units.
pub proof fn lemma_media_position_is_under_the_pen(x: i32, width: i32)
    requires
        width > 0,
        0 <= x,
        x < 256 * width,
    ensures
        media_button_at(x, width) as int * width <= x,
        x < (media_button_at(x, width) as int + 1) * width,
{
    let q = x as int / width as int;
    assert(q * width <= x < (q + 1) * width) by (nonlinear_arith)
        requires
            width > 0,
            0 <= x,
            q == x as int / width as int,
    ;
    assert(q < 256) by (nonlinear_arith)
        requires
            width > 0,
            0 <= x,
            x < 256 * width,
            q * width <= x,
    ;
    assert(q as u8 == q);
}

} // verus!
