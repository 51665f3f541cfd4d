//! The state machine that turns tablet reports into input events.
//!
//! `DeviceDispatcher` keeps what the previous report held (express keys,
//! pen button, contact, last media key) and, for each new report, returns
//! the batches of events to write to the virtual pen, the express-key
//! keyboard and the media keyboard, in the order in which they are written.
use std::collections::HashMap;
use vstd::prelude::*;
use crate::events::{
    emissions_view, key_event, key_events, push_key_events, single_key_event, single_syn_report,
    syn_report, Emission, Event, EventCode, Key, OutputDevice,
};
use crate::packet::{
    spec_pen_buttons, spec_tablet_flags, spec_x_axis, spec_y_axis, RawDataReader, PEN_BUTTONS,
};

verus! {

broadcast use vstd::std_specs::hash::group_hash_axioms;

/// Value of a key event for a key that goes down.
pub const PRESSED: i32 = 1;

/// Value of a key event for a key that goes up.
pub const RELEASED: i32 = 0;

/// Value of a key event for a key that stays down.
pub const HOLD: i32 = 2;

pub const MAX_X: i32 = 4095;

pub const MAX_Y: i32 = 4095;

pub const MAX_PRESSURE: i32 = 8191;

/// The raw pressure reading of a pen that does not touch the surface.
pub const RAW_PRESSURE_POINTS: i32 = 2000;

pub const MEDIA_BUTTONS_COUNT: i32 = 10;

/// The pressure threshold of a fresh configuration: how far the raw
/// pressure must fall below its rest reading before the pen touches.
pub const DEFAULT_PRESSURE_THRESHOLD: u16 = 510;

/// Width, in pen units, of one key of the media strip: `MAX_X / MEDIA_BUTTONS_COUNT`.
pub const MEDIA_BUTTON_WIDTH: i32 = 409;

/// Number of express-key positions in the express-key word.
pub const TABLET_BUTTON_SLOTS: u8 = 14;

/// The express-key positions that no key of the tablet uses.
pub open spec fn unused_tablet_slot(i: int) -> bool {
    i == 10 || i == 11
}

/// The keys that each media-strip position sends, out of the box.
pub open spec fn default_media_keys(id: u8) -> Option<Seq<Key>> {
    match id {
        0 => Some(seq![Key::KeyMute]),
        1 => Some(seq![Key::KeyVolumeDown]),
        2 => Some(seq![Key::KeyVolumeUp]),
        3 => Some(seq![Key::KeyPlayer]),
        4 => Some(seq![Key::KeyPlayPause]),
        5 => Some(seq![Key::KeyPreviousSong]),
        6 => Some(seq![Key::KeyNextSong]),
        7 => Some(seq![Key::KeyHome]),
        8 => Some(seq![Key::KeyCalc]),
        9 => Some(seq![Key::KeyLeftMeta, Key::KeyD]),
        _ => None,
    }
}

/// The keys that each express key sends, out of the box.
pub open spec fn default_tablet_keys(id: u8) -> Option<Seq<Key>> {
    match id {
        0 => Some(seq![Key::KeyTab]),
        1 => Some(seq![Key::KeySpace]),
        2 => Some(seq![Key::KeyLeftAlt]),
        3 => Some(seq![Key::KeyLeftCtrl]),
        4 => Some(seq![Key::KeyPageUp]),
        5 => Some(seq![Key::KeyPageDown]),
        6 => Some(seq![Key::KeyLeftBrace]),
        7 => Some(seq![Key::KeyLeftCtrl, Key::KeyKpMinus]),
        8 => Some(seq![Key::KeyLeftCtrl, Key::KeyKpPlus]),
        9 => Some(seq![Key::KeyEsc]),
        12 => Some(seq![Key::KeyB]),
        13 => Some(seq![Key::KeyRightBrace]),
        _ => None,
    }
}

/// The keys that each pen button sends, out of the box.
pub open spec fn default_pen_keys(id: u8) -> Option<Seq<Key>> {
    match id {
        4 => Some(seq![Key::BtnStylus]),
        6 => Some(seq![Key::BtnStylus2]),
        _ => None,
    }
}

/// The key lists of a table, as sequences.
pub open spec fn key_seqs(m: Map<u8, Vec<Key>>) -> Map<u8, Seq<Key>> {
    m.map_values(|v: Vec<Key>| v@)
}

/// `m` maps exactly the ids for which `f` gives keys, to those keys.
pub open spec fn key_map_is(m: Map<u8, Seq<Key>>, f: spec_fn(u8) -> Option<Seq<Key>>) -> bool {
    forall|id: u8|
        #![trigger m.contains_key(id)]
        #![trigger f(id)]
        (m.contains_key(id) <==> f(id) is Some) && (m.contains_key(id) ==> m[id] == f(id)->0)
}

/// Some button of `m` sends `k`.
pub open spec fn map_sends(m: Map<u8, Seq<Key>>, k: Key) -> bool {
    exists|id: u8| #[trigger] m.contains_key(id) && m[id].contains(k)
}

/// What the dispatcher remembers, as a mathematical value.
pub struct DispatcherView {
    /// Express-key word of the previous report (a clear bit is a held key).
    pub tablet_last_raw_pressed_buttons: u16,
    /// Pen button byte of the previous report.
    pub pen_last_raw_pressed_button: u8,
    /// The media-strip position touched last.
    pub last_pressed_media_button: u8,
    /// Whether the current contact began on the media strip and so holds
    /// the keys of `last_pressed_media_button` down.
    pub media_key_held: bool,
    pub media_keys: Map<u8, Seq<Key>>,
    pub tablet_keys: Map<u8, Seq<Key>>,
    pub pen_keys: Map<u8, Seq<Key>>,
    /// Whether the pen pressed on the surface in the previous report.
    pub was_touching: bool,
    pub media_button_width: i32,
}

/// The default key tables, written out: the media strip sends, from left
/// to right, mute, volume down, volume up, player, play/pause, previous and
/// next song, home, calculator, and meta + D (show desktop), each position
/// something different; the express keys send tab, space, alt, ctrl, page
/// up, page down, `[`, ctrl + keypad minus, ctrl + keypad plus, escape, B and
/// `]`, each key something different; the side buttons send the two stylus
/// buttons.
pub open spec fn default_tables_by_value(
    media: Map<u8, Seq<Key>>,
    tablet: Map<u8, Seq<Key>>,
    pen: Map<u8, Seq<Key>>,
) -> bool {
    &&& media.dom() =~= set![0u8, 1u8, 2u8, 3u8, 4u8, 5u8, 6u8, 7u8, 8u8, 9u8]
    &&& media[0] == seq![Key::KeyMute]
    &&& media[1] == seq![Key::KeyVolumeDown]
    &&& media[2] == seq![Key::KeyVolumeUp]
    &&& media[3] == seq![Key::KeyPlayer]
    &&& media[4] == seq![Key::KeyPlayPause]
    &&& media[5] == seq![Key::KeyPreviousSong]
    &&& media[6] == seq![Key::KeyNextSong]
    &&& media[7] == seq![Key::KeyHome]
    &&& media[8] == seq![Key::KeyCalc]
    &&& media[9] == seq![Key::KeyLeftMeta, Key::KeyD]
    &&& forall|i: u8, j: u8|
        #![trigger media[i], media[j]]
        media.contains_key(i) && media.contains_key(j) && i != j ==> media[i] != media[j]
    &&& tablet.dom() =~= set![0u8, 1u8, 2u8, 3u8, 4u8, 5u8, 6u8, 7u8, 8u8, 9u8, 12u8, 13u8]
    &&& tablet[0] == seq![Key::KeyTab]
    &&& tablet[1] == seq![Key::KeySpace]
    &&& tablet[2] == seq![Key::KeyLeftAlt]
    &&& tablet[3] == seq![Key::KeyLeftCtrl]
    &&& tablet[4] == seq![Key::KeyPageUp]
    &&& tablet[5] == seq![Key::KeyPageDown]
    &&& tablet[6] == seq![Key::KeyLeftBrace]
    &&& tablet[7] == seq![Key::KeyLeftCtrl, Key::KeyKpMinus]
    &&& tablet[8] == seq![Key::KeyLeftCtrl, Key::KeyKpPlus]
    &&& tablet[9] == seq![Key::KeyEsc]
    &&& tablet[12] == seq![Key::KeyB]
    &&& tablet[13] == seq![Key::KeyRightBrace]
    &&& forall|i: u8, j: u8|
        #![trigger tablet[i], tablet[j]]
        tablet.contains_key(i) && tablet.contains_key(j) && i != j ==> tablet[i] != tablet[j]
    &&& pen.dom() =~= set![4u8, 6u8]
    &&& pen[4] == seq![Key::BtnStylus]
    &&& pen[6] == seq![Key::BtnStylus2]
}

/// The tables that `default_media_keys`, `default_tablet_keys` and
/// `default_pen_keys` describe are the ones written out in
/// `default_tables_by_value`.
pub proof fn lemma_default_tables_by_value(
    media: Map<u8, Seq<Key>>,
    tablet: Map<u8, Seq<Key>>,
    pen: Map<u8, Seq<Key>>,
)
    requires
        key_map_is(media, |id: u8| default_media_keys(id)),
        key_map_is(tablet, |id: u8| default_tablet_keys(id)),
        key_map_is(pen, |id: u8| default_pen_keys(id)),
    ensures
        default_tables_by_value(media, tablet, pen),
{
    assert forall|id: u8| media.dom().contains(id) <==> set![0u8, 1u8, 2u8, 3u8, 4u8, 5u8, 6u8, 7u8, 8u8, 9u8].contains(id) by {
        assert(media.contains_key(id) <==> default_media_keys(id) is Some);
    }
    assert forall|id: u8|
        tablet.dom().contains(id) <==> set![0u8, 1u8, 2u8, 3u8, 4u8, 5u8, 6u8, 7u8, 8u8, 9u8, 12u8, 13u8].contains(id) by {
        assert(tablet.contains_key(id) <==> default_tablet_keys(id) is Some);
    }
    assert forall|id: u8| pen.dom().contains(id) <==> set![4u8, 6u8].contains(id) by {
        assert(pen.contains_key(id) <==> default_pen_keys(id) is Some);
    }
    assert(media.contains_key(0) && media.contains_key(1) && media.contains_key(2) && media.contains_key(3)
        && media.contains_key(4) && media.contains_key(5) && media.contains_key(6) && media.contains_key(7)
        && media.contains_key(8) && media.contains_key(9));
    assert(tablet.contains_key(0) && tablet.contains_key(1) && tablet.contains_key(2) && tablet.contains_key(3)
        && tablet.contains_key(4) && tablet.contains_key(5) && tablet.contains_key(6) && tablet.contains_key(7)
        && tablet.contains_key(8) && tablet.contains_key(9) && tablet.contains_key(12) && tablet.contains_key(13));
    assert(pen.contains_key(4) && pen.contains_key(6));
    assert forall|i: u8, j: u8|
        #![trigger media[i], media[j]]
        media.contains_key(i) && media.contains_key(j) && i != j implies media[i] != media[j] by {
        assert(default_media_keys(i) is Some && default_media_keys(j) is Some);
        if media[i] == media[j] {
            assert(media[i][0] == media[j][0]);
        }
    }
    assert forall|i: u8, j: u8|
        #![trigger tablet[i], tablet[j]]
        tablet.contains_key(i) && tablet.contains_key(j) && i != j implies tablet[i] != tablet[j] by {
        assert(default_tablet_keys(i) is Some && default_tablet_keys(j) is Some);
        if tablet[i] == tablet[j] {
            assert(tablet[i].len() == tablet[j].len());
            assert(tablet[i][0] == tablet[j][0]);
            assert(tablet[i].len() == 2 ==> tablet[i][1] == tablet[j][1]);
        }
    }
}

/// The driver's memory of the previous report and its key tables.
pub struct DeviceDispatcher {
    tablet_last_raw_pressed_buttons: u16,
    pen_last_raw_pressed_button: u8,
    last_pressed_media_button: u8,
    media_key_held: bool,
    media_button_id_to_key_code_map: HashMap<u8, Vec<Key>>,
    tablet_button_id_to_key_code_map: HashMap<u8, Vec<Key>>,
    pen_button_id_to_key_code_map: HashMap<u8, Vec<Key>>,
    was_touching: bool,
    media_button_width: i32,
}

impl View for DeviceDispatcher {
    type V = DispatcherView;

    closed spec fn view(&self) -> DispatcherView {
        DispatcherView {
            tablet_last_raw_pressed_buttons: self.tablet_last_raw_pressed_buttons,
            pen_last_raw_pressed_button: self.pen_last_raw_pressed_button,
            last_pressed_media_button: self.last_pressed_media_button,
            media_key_held: self.media_key_held,
            media_keys: key_seqs(self.media_button_id_to_key_code_map@),
            tablet_keys: key_seqs(self.tablet_button_id_to_key_code_map@),
            pen_keys: key_seqs(self.pen_button_id_to_key_code_map@),
            was_touching: self.was_touching,
            media_button_width: self.media_button_width,
        }
    }
}

fn keys1(a: Key) -> (v: Vec<Key>)
    ensures
        v@ == seq![a],
{
    let mut v = Vec::new();
    v.push(a);
    v
}

fn keys2(a: Key, b: Key) -> (v: Vec<Key>)
    ensures
        v@ == seq![a, b],
{
    let mut v = Vec::new();
    v.push(a);
    v.push(b);
    v
}

fn copy_keys(keys: &Vec<Key>) -> (r: Vec<Key>)
    ensures
        r@ == keys@,
{
    let mut r: Vec<Key> = Vec::new();
    let n = keys.len();
    let mut j: usize = 0;
    while j < n
        invariant
            n == keys@.len(),
            j <= n,
            r@ == keys@.take(j as int),
        decreases n - j,
    {
        r.push(keys[j]);
        assert(keys@.take(j + 1) =~= keys@.take(j as int).push(keys@[j as int]));
        j = j + 1;
    }
    assert(keys@.take(n as int) =~= keys@);
    r
}

fn default_media_map() -> (m: HashMap<u8, Vec<Key>>)
    ensures
        key_map_is(key_seqs(m@), |id: u8| default_media_keys(id)),
{
    let mut m = HashMap::new();
    m.insert(0u8, keys1(Key::KeyMute));
    m.insert(1u8, keys1(Key::KeyVolumeDown));
    m.insert(2u8, keys1(Key::KeyVolumeUp));
    m.insert(3u8, keys1(Key::KeyPlayer));
    m.insert(4u8, keys1(Key::KeyPlayPause));
    m.insert(5u8, keys1(Key::KeyPreviousSong));
    m.insert(6u8, keys1(Key::KeyNextSong));
    m.insert(7u8, keys1(Key::KeyHome));
    m.insert(8u8, keys1(Key::KeyCalc));
    m.insert(9u8, keys2(Key::KeyLeftMeta, Key::KeyD));
    m
}

fn default_tablet_map() -> (m: HashMap<u8, Vec<Key>>)
    ensures
        key_map_is(key_seqs(m@), |id: u8| default_tablet_keys(id)),
{
    let mut m = HashMap::new();
    m.insert(0u8, keys1(Key::KeyTab));
    m.insert(1u8, keys1(Key::KeySpace));
    m.insert(2u8, keys1(Key::KeyLeftAlt));
    m.insert(3u8, keys1(Key::KeyLeftCtrl));
    m.insert(4u8, keys1(Key::KeyPageUp));
    m.insert(5u8, keys1(Key::KeyPageDown));
    m.insert(6u8, keys1(Key::KeyLeftBrace));
    m.insert(7u8, keys2(Key::KeyLeftCtrl, Key::KeyKpMinus));
    m.insert(8u8, keys2(Key::KeyLeftCtrl, Key::KeyKpPlus));
    m.insert(9u8, keys1(Key::KeyEsc));
    m.insert(12u8, keys1(Key::KeyB));
    m.insert(13u8, keys1(Key::KeyRightBrace));
    m
}

fn default_pen_map() -> (m: HashMap<u8, Vec<Key>>)
    ensures
        key_map_is(key_seqs(m@), |id: u8| default_pen_keys(id)),
{
    let mut m = HashMap::new();
    m.insert(4u8, keys1(Key::BtnStylus));
    m.insert(6u8, keys1(Key::BtnStylus2));
    m
}

/// Every key that some button of `map` sends (each possibly more than once).
fn emitted_keys(map: &HashMap<u8, Vec<Key>>) -> (r: Vec<Key>)
    ensures
        forall|k: Key| r@.contains(k) <==> map_sends(key_seqs(map@), k),
{
    let mut r: Vec<Key> = Vec::new();
    let mut id: u16 = 0;
    while id < 256
        invariant
            id <= 256,
            forall|k: Key|
                r@.contains(k) <==> exists|j: u8| #[trigger]
                    map@.contains_key(j) && j < id && map@[j]@.contains(k),
        decreases 256 - id,
    {
        let ghost before = r@;
        let b = id as u8;
        match map.get(&b) {
            Some(keys) => {
                let n = keys.len();
                let mut j: usize = 0;
                while j < n
                    invariant
                        n == keys@.len(),
                        j <= n,
                        map@.contains_key(b),
                        map@[b] == *keys,
                        r@ == before + keys@.take(j as int),
                    decreases n - j,
                {
                    r.push(keys[j]);
                    assert(keys@.take(j + 1) =~= keys@.take(j as int).push(keys@[j as int]));
                    j = j + 1;
                }
                assert(keys@.take(n as int) =~= keys@);
                assert forall|k: Key|
                    r@.contains(k) <==> exists|j: u8| #[trigger]
                        map@.contains_key(j) && j < id + 1 && map@[j]@.contains(k) by {
                    if r@.contains(k) {
                        let i = choose|i: int| 0 <= i < r@.len() && r@[i] == k;
                        if i >= before.len() {
                            assert(keys@[i - before.len()] == k);
                            assert(map@.contains_key(b) && b < id + 1 && map@[b]@.contains(k));
                        } else {
                            assert(before.contains(k));
                        }
                    }
                    if exists|j: u8| #[trigger]
                        map@.contains_key(j) && j < id + 1 && map@[j]@.contains(k) {
                        let j = choose|j: u8| #[trigger]
                            map@.contains_key(j) && j < id + 1 && map@[j]@.contains(k);
                        if j < id {
                            assert(map@.contains_key(j) && j < id && map@[j]@.contains(k));
                            assert(before.contains(k));
                            let i = choose|i: int| 0 <= i < before.len() && before[i] == k;
                            assert(r@[i] == k);
                        } else {
                            assert(j == b);
                            let i = choose|i: int| 0 <= i < keys@.len() && keys@[i] == k;
                            assert(r@[before.len() + i] == k);
                        }
                    }
                }
            },
            None => {
                assert forall|k: Key|
                    r@.contains(k) <==> exists|j: u8| #[trigger]
                        map@.contains_key(j) && j < id + 1 && map@[j]@.contains(k) by {
                    if exists|j: u8| #[trigger]
                        map@.contains_key(j) && j < id + 1 && map@[j]@.contains(k) {
                        let j = choose|j: u8| #[trigger]
                            map@.contains_key(j) && j < id + 1 && map@[j]@.contains(k);
                        assert(j != b);
                    }
                }
            },
        }
        id = id + 1;
    }
    assert forall|k: Key| r@.contains(k) <==> map_sends(key_seqs(map@), k) by {
        if r@.contains(k) {
            let j = choose|j: u8| #[trigger] map@.contains_key(j) && j < 256 && map@[j]@.contains(k);
            assert(key_seqs(map@).contains_key(j));
        }
        if map_sends(key_seqs(map@), k) {
            let j = choose|j: u8| #[trigger] key_seqs(map@).contains_key(j) && key_seqs(map@)[j].contains(k);
            assert(map@.contains_key(j) && j < 256 && map@[j]@.contains(k));
        }
    }
    r
}

/// The keys that the virtual pen must be able to report: those of the pen
/// buttons, the pen tool, and the two mouse buttons.
pub fn virtual_pen_keys(pen_emitted_keys: &Vec<Key>) -> (r: Vec<Key>)
    ensures
        r@ == pen_emitted_keys@ + seq![Key::BtnToolPen, Key::BtnLeft, Key::BtnRight],
{
    let mut r = copy_keys(pen_emitted_keys);
    r.push(Key::BtnToolPen);
    r.push(Key::BtnLeft);
    r.push(Key::BtnRight);
    r
}

/// Whether express key (or bit) `i` is held in the word `flags`: its bit is clear.
pub open spec fn button_held(flags: u16, i: u8) -> bool {
    flags & (1u16 << i) == 0
}

/// The event value for an express key that was and is held as given:
/// none while it stays up.
pub open spec fn tablet_key_transition(was_pressed: bool, is_pressed: bool) -> Option<i32> {
    if !was_pressed && is_pressed {
        Some(PRESSED)
    } else if was_pressed && !is_pressed {
        Some(RELEASED)
    } else if was_pressed && is_pressed {
        Some(HOLD)
    } else {
        None
    }
}

/// The batches for express key `i` going from word `last` to word `flags`:
/// one per key that the express key sends, then a synchronization report.
pub open spec fn tablet_key_emissions(map: Map<u8, Seq<Key>>, last: u16, i: u8, flags: u16) -> Seq<
    (OutputDevice, Seq<Event>),
> {
    match tablet_key_transition(button_held(last, i), button_held(flags, i)) {
        Some(state) => if map.contains_key(i) {
            key_events(OutputDevice::Keyboard, map[i], state).push(
                syn_report(OutputDevice::Keyboard),
            )
        } else {
            seq![]
        },
        None => seq![],
    }
}

/// The batches for the express keys at positions below `n`, in order,
/// skipping the unused positions.
pub open spec fn tablet_emissions_below(map: Map<u8, Seq<Key>>, last: u16, flags: u16, n: nat) -> Seq<
    (OutputDevice, Seq<Event>),
>
    decreases n,
{
    if n == 0 {
        seq![]
    } else {
        let i = (n - 1) as nat;
        tablet_emissions_below(map, last, flags, i) + if unused_tablet_slot(i as int) {
            seq![]
        } else {
            tablet_key_emissions(map, last, i as u8, flags)
        }
    }
}

/// The batches for all express keys going from word `last` to word `flags`.
pub open spec fn tablet_emissions(map: Map<u8, Seq<Key>>, last: u16, flags: u16) -> Seq<
    (OutputDevice, Seq<Event>),
> {
    tablet_emissions_below(map, last, flags, TABLET_BUTTON_SLOTS as nat)
}

/// The event value and pen button for a pen button byte going from `last`
/// to `now`: byte 2 means no button, 4 and 6 the two side buttons.
pub open spec fn pen_button_transition(last: u8, now: u8) -> Option<(i32, u8)> {
    if last == 2 && (now == 6 || now == 4) {
        Some((PRESSED, now))
    } else if now == 2 && (last == 6 || last == 4) {
        Some((RELEASED, last))
    } else if last != 2 && last == now {
        Some((HOLD, last))
    } else {
        None
    }
}

/// The batches for the pen button byte going from `last` to `now`.
pub open spec fn pen_button_emissions(map: Map<u8, Seq<Key>>, last: u8, now: u8) -> Seq<
    (OutputDevice, Seq<Event>),
> {
    match pen_button_transition(last, now) {
        Some((state, id)) => if map.contains_key(id) {
            key_events(OutputDevice::Pen, map[id], state)
        } else {
            seq![]
        },
        None => seq![],
    }
}

/// `v` limited to `lo..=hi`.
pub open spec fn clamp(v: int, lo: int, hi: int) -> int {
    if v < lo {
        lo
    } else if v > hi {
        hi
    } else {
        v
    }
}

/// The pen's position and pressure, sent as one batch (so that the three
/// reach the kernel together) with the pen tool marked as in range;
/// nothing over the media strip.
pub open spec fn pen_abs_emissions(x: i32, y: i32, pressure: i32, is_multimedia_area: bool) -> Seq<
    (OutputDevice, Seq<Event>),
> {
    if is_multimedia_area {
        seq![]
    } else {
        seq![
            (
                OutputDevice::Pen,
                seq![
                    Event { code: EventCode::AbsX, value: clamp(x as int, 0, MAX_X as int) as i32 },
                    Event { code: EventCode::AbsY, value: clamp(y as int, 0, MAX_Y as int) as i32 },
                    Event { code: EventCode::AbsPressure, value: pressure },
                    Event { code: EventCode::Key(Key::BtnToolPen), value: 1 },
                ],
            ),
        ]
    }
}

/// The event value for the pen's contact going from `was_touching` to
/// `is_touching`: none while it does not change.
pub open spec fn touch_transition(was_touching: bool, is_touching: bool) -> Option<i32> {
    if !was_touching && is_touching {
        Some(PRESSED)
    } else if was_touching && !is_touching {
        Some(RELEASED)
    } else {
        None
    }
}

/// Quotient of `a` by a positive `b`, rounded toward zero.
pub open spec fn div_toward_zero(a: int, b: int) -> int {
    if a >= 0 {
        a / b
    } else {
        -((-a) / b)
    }
}

/// The media-strip position under horizontal coordinate `x`, reduced to a
/// byte.
pub open spec fn media_button_at(x: i32, width: i32) -> u8 {
    div_toward_zero(x as int, width as int) as u8
}

/// The dispatcher after the pen's contact in a report with the pen at `x`
/// and `pressure`: a new contact over the media strip selects and holds the
/// media key under the pen, a new contact over the drawing area holds none,
/// and a lift lets the held media key go.
pub open spec fn touch_step(s: DispatcherView, x: i32, is_multimedia_area: bool, pressure: i32) -> DispatcherView {
    match touch_transition(s.was_touching, pressure > 0) {
        Some(state) => if state == PRESSED && is_multimedia_area {
            DispatcherView {
                last_pressed_media_button: media_button_at(x, s.media_button_width),
                media_key_held: true,
                was_touching: true,
                ..s
            }
        } else {
            DispatcherView { media_key_held: false, was_touching: pressure > 0, ..s }
        },
        None => s,
    }
}

/// The batches for a change of the pen's contact. A new contact over the
/// media strip presses the keys of the media position under the pen; a new
/// contact over the drawing area releases the keys of the remembered media
/// position and touches the pen down. A lift releases the media keys that
/// this contact pressed, if any (never those of a contact that began over
/// the drawing area), and, over the drawing area, lifts the pen's touch.
pub open spec fn touch_emissions(s: DispatcherView, x: i32, is_multimedia_area: bool, pressure: i32) -> Seq<
    (OutputDevice, Seq<Event>),
> {
    match touch_transition(s.was_touching, pressure > 0) {
        Some(state) => if state == PRESSED {
            if is_multimedia_area {
                let b = media_button_at(x, s.media_button_width);
                if s.media_keys.contains_key(b) {
                    key_events(OutputDevice::MediaKeyboard, s.media_keys[b], PRESSED)
                } else {
                    seq![]
                }
            } else {
                let b = s.last_pressed_media_button;
                let media = if s.media_keys.contains_key(b) {
                    key_events(OutputDevice::MediaKeyboard, s.media_keys[b], RELEASED)
                } else {
                    seq![]
                };
                media.push(key_event(OutputDevice::Pen, Key::BtnTouch, PRESSED))
            }
        } else {
            let b = s.last_pressed_media_button;
            let media = if s.media_key_held && s.media_keys.contains_key(b) {
                key_events(OutputDevice::MediaKeyboard, s.media_keys[b], RELEASED)
            } else {
                seq![]
            };
            if is_multimedia_area {
                media
            } else {
                media.push(key_event(OutputDevice::Pen, Key::BtnTouch, RELEASED))
            }
        },
        None => seq![],
    }
}

/// Whether a report with `pressure` starts a stroke: the pen comes down.
pub open spec fn starts_stroke(s: DispatcherView, pressure: i32) -> bool {
    !s.was_touching && pressure > 0
}

/// The pen position used for a report: where the report puts the pen when
/// a stroke starts (so the stroke begins where the pen came down), the
/// caller's smoothed position otherwise.
pub open spec fn pen_position(
    s: DispatcherView,
    data: Seq<u8>,
    smoothed_x: i32,
    smoothed_y: i32,
    pressure: i32,
) -> (i32, i32) {
    if starts_stroke(s, pressure) {
        (spec_x_axis(data) as i32, spec_y_axis(data) as i32)
    } else {
        (smoothed_x, smoothed_y)
    }
}

/// All batches for one report `data`, the caller's smoothed pen at
/// (`smoothed_x`, `smoothed_y`) with `pressure`: pen buttons, pen position,
/// contact, express keys.
pub open spec fn dispatch_emissions(
    s: DispatcherView,
    data: Seq<u8>,
    smoothed_x: i32,
    smoothed_y: i32,
    pressure: i32,
) -> Seq<(OutputDevice, Seq<Event>)> {
    let is_multimedia_area = spec_y_axis(data) < 0;
    let (x, y) = pen_position(s, data, smoothed_x, smoothed_y, pressure);
    pen_button_emissions(s.pen_keys, s.pen_last_raw_pressed_button, spec_pen_buttons(data))
        + pen_abs_emissions(x, y, pressure, is_multimedia_area) + touch_emissions(
        s,
        x,
        is_multimedia_area,
        pressure,
    ) + tablet_emissions(s.tablet_keys, s.tablet_last_raw_pressed_buttons, spec_tablet_flags(data))
}

/// The dispatcher after a report `data` with the caller's smoothed pen at
/// (`smoothed_x`, `smoothed_y`) and `pressure`.
pub open spec fn dispatch_state(
    s: DispatcherView,
    data: Seq<u8>,
    smoothed_x: i32,
    smoothed_y: i32,
    pressure: i32,
) -> DispatcherView {
    let (x, y) = pen_position(s, data, smoothed_x, smoothed_y, pressure);
    DispatcherView {
        tablet_last_raw_pressed_buttons: spec_tablet_flags(data),
        pen_last_raw_pressed_button: spec_pen_buttons(data),
        ..touch_step(s, x, spec_y_axis(data) < 0, pressure)
    }
}

/// A report long enough for every field that the dispatcher reads.
pub open spec fn report_is_complete(data: Seq<u8>) -> bool {
    data.len() > PEN_BUTTONS
}

impl DeviceDispatcher {
    #[verifier::type_invariant]
    spec fn well_formed(self) -> bool {
        self.media_button_width > 0
    }

    /// A dispatcher with the default key tables, all keys up, the pen up,
    /// and the first media position remembered.
    pub fn new() -> (d: DeviceDispatcher)
        ensures
            d@.tablet_last_raw_pressed_buttons == 0xFFFF,
            d@.pen_last_raw_pressed_button == 0,
            d@.last_pressed_media_button == 0,
            !d@.media_key_held,
            !d@.was_touching,
            d@.media_button_width == MEDIA_BUTTON_WIDTH,
            d@.media_button_width == MAX_X / MEDIA_BUTTONS_COUNT,
            key_map_is(d@.media_keys, |id: u8| default_media_keys(id)),
            key_map_is(d@.tablet_keys, |id: u8| default_tablet_keys(id)),
            key_map_is(d@.pen_keys, |id: u8| default_pen_keys(id)),
            default_tables_by_value(d@.media_keys, d@.tablet_keys, d@.pen_keys),
    {
        let d = DeviceDispatcher {
            tablet_last_raw_pressed_buttons: 0xFFFF,
            pen_last_raw_pressed_button: 0,
            last_pressed_media_button: 0,
            media_key_held: false,
            media_button_id_to_key_code_map: default_media_map(),
            tablet_button_id_to_key_code_map: default_tablet_map(),
            pen_button_id_to_key_code_map: default_pen_map(),
            was_touching: false,
            media_button_width: MEDIA_BUTTON_WIDTH,
        };
        proof {
            lemma_default_tables_by_value(d@.media_keys, d@.tablet_keys, d@.pen_keys);
        }
        d
    }

    pub fn tablet_last_raw_pressed_buttons(&self) -> (r: u16)
        ensures
            r == self@.tablet_last_raw_pressed_buttons,
    {
        self.tablet_last_raw_pressed_buttons
    }

    pub fn pen_last_raw_pressed_button(&self) -> (r: u8)
        ensures
            r == self@.pen_last_raw_pressed_button,
    {
        self.pen_last_raw_pressed_button
    }

    pub fn last_pressed_media_button(&self) -> (r: u8)
        ensures
            r == self@.last_pressed_media_button,
    {
        self.last_pressed_media_button
    }

    pub fn media_key_held(&self) -> (r: bool)
        ensures
            r == self@.media_key_held,
    {
        self.media_key_held
    }

    pub fn was_touching(&self) -> (r: bool)
        ensures
            r == self@.was_touching,
    {
        self.was_touching
    }

    pub fn media_button_width(&self) -> (r: i32)
        ensures
            r == self@.media_button_width,
            r > 0,
    {
        proof {
            use_type_invariant(self);
        }
        self.media_button_width
    }

    /// The keys that media-strip position `id` sends, if any.
    pub fn media_button_keys(&self, id: u8) -> (r: Option<Vec<Key>>)
        ensures
            r is Some <==> self@.media_keys.contains_key(id),
            r matches Some(v) ==> v@ == self@.media_keys[id],
    {
        match self.media_button_id_to_key_code_map.get(&id) {
            Some(keys) => Some(copy_keys(keys)),
            None => None,
        }
    }

    /// The keys that express key `id` sends, if any.
    pub fn tablet_button_keys(&self, id: u8) -> (r: Option<Vec<Key>>)
        ensures
            r is Some <==> self@.tablet_keys.contains_key(id),
            r matches Some(v) ==> v@ == self@.tablet_keys[id],
    {
        match self.tablet_button_id_to_key_code_map.get(&id) {
            Some(keys) => Some(copy_keys(keys)),
            None => None,
        }
    }

    /// The keys that pen button byte `id` sends, if any.
    pub fn pen_button_keys(&self, id: u8) -> (r: Option<Vec<Key>>)
        ensures
            r is Some <==> self@.pen_keys.contains_key(id),
            r matches Some(v) ==> v@ == self@.pen_keys[id],
    {
        match self.pen_button_id_to_key_code_map.get(&id) {
            Some(keys) => Some(copy_keys(keys)),
            None => None,
        }
    }

    /// The keys of the express keys, for the express-key keyboard.
    pub fn tablet_emitted_keys(&self) -> (r: Vec<Key>)
        ensures
            forall|k: Key| r@.contains(k) <==> map_sends(self@.tablet_keys, k),
    {
        emitted_keys(&self.tablet_button_id_to_key_code_map)
    }

    /// The keys of the media strip, for the media keyboard.
    pub fn media_emitted_keys(&self) -> (r: Vec<Key>)
        ensures
            forall|k: Key| r@.contains(k) <==> map_sends(self@.media_keys, k),
    {
        emitted_keys(&self.media_button_id_to_key_code_map)
    }

    /// The keys of the pen buttons.
    pub fn pen_emitted_keys(&self) -> (r: Vec<Key>)
        ensures
            forall|k: Key| r@.contains(k) <==> map_sends(self@.pen_keys, k),
    {
        emitted_keys(&self.pen_button_id_to_key_code_map)
    }

    /// Synchronization reports closing the events of a report, first on the
    /// express-key keyboard, then on the pen.
    pub fn syn(&self) -> (r: Vec<Emission>)
        ensures
            emissions_view(r@) == seq![syn_report(OutputDevice::Keyboard), syn_report(OutputDevice::Pen)],
    {
        let mut r = Vec::new();
        r.push(single_syn_report(OutputDevice::Keyboard));
        r.push(single_syn_report(OutputDevice::Pen));
        assert(emissions_view(r@) =~= seq![syn_report(OutputDevice::Keyboard), syn_report(OutputDevice::Pen)]);
        r
    }

    /// The batches for express key `i` going from the remembered word to
    /// `raw_button_as_flags`.
    pub fn emit_tablet_key_event(&self, i: u8, raw_button_as_flags: u16) -> (r: Vec<Emission>)
        requires
            i < 16,
        ensures
            emissions_view(r@) == tablet_key_emissions(
                self@.tablet_keys,
                self@.tablet_last_raw_pressed_buttons,
                i,
                raw_button_as_flags,
            ),
    {
        let id_as_binary_mask: u16 = 1u16 << i;
        let is_pressed = (raw_button_as_flags & id_as_binary_mask) == 0;
        let was_pressed = (self.tablet_last_raw_pressed_buttons & id_as_binary_mask) == 0;
        let state = if !was_pressed && is_pressed {
            Some(PRESSED)
        } else if was_pressed && !is_pressed {
            Some(RELEASED)
        } else if was_pressed && is_pressed {
            Some(HOLD)
        } else {
            None
        };
        let mut r: Vec<Emission> = Vec::new();
        if let Some(state) = state {
            if let Some(keys) = self.tablet_button_id_to_key_code_map.get(&i) {
                push_key_events(&mut r, OutputDevice::Keyboard, keys, state);
                let ghost before = r@;
                r.push(single_syn_report(OutputDevice::Keyboard));
                assert(emissions_view(r@) =~= emissions_view(before).push(syn_report(OutputDevice::Keyboard)));
            }
        }
        proof {
            if state is None || !self.tablet_button_id_to_key_code_map@.contains_key(i) {
                assert(emissions_view(r@) =~= seq![]);
            }
        }
        r
    }

    /// The batches for all express keys going from the remembered word to
    /// `raw_button_as_flags`.
    pub fn binary_flags_to_tablet_key_events(&self, raw_button_as_flags: u16) -> (r: Vec<Emission>)
        ensures
            emissions_view(r@) == tablet_emissions(
                self@.tablet_keys,
                self@.tablet_last_raw_pressed_buttons,
                raw_button_as_flags,
            ),
    {
        let mut r: Vec<Emission> = Vec::new();
        let mut i: u8 = 0;
        while i < TABLET_BUTTON_SLOTS
            invariant
                i <= TABLET_BUTTON_SLOTS,
                emissions_view(r@) == tablet_emissions_below(
                    self@.tablet_keys,
                    self@.tablet_last_raw_pressed_buttons,
                    raw_button_as_flags,
                    i as nat,
                ),
            decreases TABLET_BUTTON_SLOTS - i,
        {
            let ghost before = r@;
            if i != 10 && i != 11 {
                let mut e = self.emit_tablet_key_event(i, raw_button_as_flags);
                let ghost added = e@;
                r.append(&mut e);
                assert(emissions_view(r@) =~= emissions_view(before) + emissions_view(added));
            } else {
                assert(emissions_view(r@) =~= emissions_view(before) + seq![]);
            }
            i = i + 1;
        }
        r
    }

    /// The batches for the express keys of a report, which becomes the
    /// remembered word.
    pub fn emit_tablet_events(&mut self, raw_data: &RawDataReader) -> (r: Vec<Emission>)
        ensures
            emissions_view(r@) == tablet_emissions(
                old(self)@.tablet_keys,
                old(self)@.tablet_last_raw_pressed_buttons,
                spec_tablet_flags(raw_data.data@),
            ),
            final(self)@ == (DispatcherView {
                tablet_last_raw_pressed_buttons: spec_tablet_flags(raw_data.data@),
                ..old(self)@
            }),
    {
        proof {
            use_type_invariant(&*self);
        }
        let raw_button_as_binary_flags = raw_data.tablet_buttons_as_binary_flags();
        let r = self.binary_flags_to_tablet_key_events(raw_button_as_binary_flags);
        self.tablet_last_raw_pressed_buttons = raw_button_as_binary_flags;
        r
    }

    /// The batches for the pen button byte going from the remembered byte
    /// to `pen_button`.
    pub fn raw_pen_buttons_to_pen_key_events(&self, pen_button: u8) -> (r: Vec<Emission>)
        ensures
            emissions_view(r@) == pen_button_emissions(
                self@.pen_keys,
                self@.pen_last_raw_pressed_button,
                pen_button,
            ),
    {
        let last = self.pen_last_raw_pressed_button;
        let transition = if last == 2 && (pen_button == 6 || pen_button == 4) {
            Some((PRESSED, pen_button))
        } else if pen_button == 2 && (last == 6 || last == 4) {
            Some((RELEASED, last))
        } else if last != 2 && last == pen_button {
            Some((HOLD, last))
        } else {
            None
        };
        let mut r: Vec<Emission> = Vec::new();
        if let Some((state, id)) = transition {
            if let Some(keys) = self.pen_button_id_to_key_code_map.get(&id) {
                push_key_events(&mut r, OutputDevice::Pen, keys, state);
            }
        }
        proof {
            match transition {
                Some((_, id)) => {
                    if !self.pen_button_id_to_key_code_map@.contains_key(id) {
                        assert(emissions_view(r@) =~= seq![]);
                    }
                },
                None => {
                    assert(emissions_view(r@) =~= seq![]);
                },
            }
        }
        r
    }

    /// The batch of the pen's position (limited to the active area) and
    /// pressure, unless the pen is over the media strip.
    pub fn raw_pen_abs_to_pen_abs_events(x: i32, y: i32, pressure: i32, is_multimedia_area: bool) -> (r:
        Vec<Emission>)
        ensures
            emissions_view(r@) == pen_abs_emissions(x, y, pressure, is_multimedia_area),
    {
        let mut r: Vec<Emission> = Vec::new();
        if is_multimedia_area {
            assert(emissions_view(r@) =~= seq![]);
            return r;
        }
        let cx = if x < 0 {
            0
        } else if x > MAX_X {
            MAX_X
        } else {
            x
        };
        let cy = if y < 0 {
            0
        } else if y > MAX_Y {
            MAX_Y
        } else {
            y
        };
        let mut events: Vec<Event> = Vec::new();
        events.push(Event { code: EventCode::AbsX, value: cx });
        events.push(Event { code: EventCode::AbsY, value: cy });
        events.push(Event { code: EventCode::AbsPressure, value: pressure });
        events.push(Event { code: EventCode::Key(Key::BtnToolPen), value: 1 });
        assert(events@ =~= seq![
            Event { code: EventCode::AbsX, value: clamp(x as int, 0, MAX_X as int) as i32 },
            Event { code: EventCode::AbsY, value: clamp(y as int, 0, MAX_Y as int) as i32 },
            Event { code: EventCode::AbsPressure, value: pressure },
            Event { code: EventCode::Key(Key::BtnToolPen), value: 1 },
        ]);
        r.push(Emission { device: OutputDevice::Pen, events });
        assert(emissions_view(r@) =~= pen_abs_emissions(x, y, pressure, is_multimedia_area));
        r
    }

    /// The batches for the pen's contact in a report with the pen at `x`
    /// and `normalized_pressure`; see `touch_step` for what is remembered.
    pub fn pen_emit_touch(&mut self, x: i32, is_multimedia_area: bool, normalized_pressure: i32) -> (r:
        Vec<Emission>)
        ensures
            emissions_view(r@) == touch_emissions(old(self)@, x, is_multimedia_area, normalized_pressure),
            final(self)@ == touch_step(old(self)@, x, is_multimedia_area, normalized_pressure),
    {
        proof {
            use_type_invariant(&*self);
        }
        let is_touching = normalized_pressure > 0;
        let mut r: Vec<Emission> = Vec::new();
        if !self.was_touching && is_touching {
            if is_multimedia_area {
                self.last_pressed_media_button = Self::media_button_index(x, self.media_button_width);
                self.media_key_held = true;
                if let Some(keys) = self.media_button_id_to_key_code_map.get(&self.last_pressed_media_button) {
                    push_key_events(&mut r, OutputDevice::MediaKeyboard, keys, PRESSED);
                }
                proof {
                    if !self.media_button_id_to_key_code_map@.contains_key(self.last_pressed_media_button) {
                        assert(emissions_view(r@) =~= seq![]);
                    }
                }
            } else {
                self.media_key_held = false;
                if let Some(keys) = self.media_button_id_to_key_code_map.get(&self.last_pressed_media_button) {
                    push_key_events(&mut r, OutputDevice::MediaKeyboard, keys, RELEASED);
                }
                proof {
                    if !self.media_button_id_to_key_code_map@.contains_key(self.last_pressed_media_button) {
                        assert(emissions_view(r@) =~= seq![]);
                    }
                }
                let ghost before = r@;
                r.push(single_key_event(OutputDevice::Pen, Key::BtnTouch, PRESSED));
                assert(emissions_view(r@) =~= emissions_view(before).push(
                    key_event(OutputDevice::Pen, Key::BtnTouch, PRESSED),
                ));
            }
        } else if self.was_touching && !is_touching {
            if self.media_key_held {
                if let Some(keys) = self.media_button_id_to_key_code_map.get(&self.last_pressed_media_button) {
                    push_key_events(&mut r, OutputDevice::MediaKeyboard, keys, RELEASED);
                }
            }
            proof {
                if !self.media_key_held || !self.media_button_id_to_key_code_map@.contains_key(
                    self.last_pressed_media_button,
                ) {
                    assert(emissions_view(r@) =~= seq![]);
                }
            }
            self.media_key_held = false;
            if !is_multimedia_area {
                let ghost before = r@;
                r.push(single_key_event(OutputDevice::Pen, Key::BtnTouch, RELEASED));
                assert(emissions_view(r@) =~= emissions_view(before).push(
                    key_event(OutputDevice::Pen, Key::BtnTouch, RELEASED),
                ));
            }
        } else {
            assert(emissions_view(r@) =~= seq![]);
        }
        self.was_touching = is_touching;
        r
    }

    /// The media-strip position under horizontal coordinate `x`, for keys of
    /// `width` units, reduced to a byte.
    pub fn media_button_index(x: i32, width: i32) -> (r: u8)
        requires
            width > 0,
        ensures
            r == media_button_at(x, width),
    {
        let w = width as u64;
        if x >= 0 {
            let q = (x as u64) / w;
            assert(q as int == div_toward_zero(x as int, width as int));
            #[verifier::truncate]
            (q as u8)
        } else {
            let ax: u64 = (-(x as i64)) as u64;
            let q = ax / w;
            assert(-(q as int) == div_toward_zero(x as int, width as int));
            let nq: i64 = -(q as i64);
            #[verifier::truncate]
            (nq as u8)
        }
    }

    /// The raw pressure's excess over the rest reading, when it goes beyond
    /// `threshold`; `None` for a pen that does not press hard enough.
    pub fn pressure_above_threshold(raw_pressure: i32, threshold: u16) -> (r: Option<i32>)
        requires
            RAW_PRESSURE_POINTS - raw_pressure <= i32::MAX,
        ensures
            r == (if RAW_PRESSURE_POINTS - raw_pressure <= threshold {
                None
            } else {
                Some((RAW_PRESSURE_POINTS - raw_pressure) as i32)
            }),
    {
        let val = RAW_PRESSURE_POINTS - raw_pressure;
        if val <= threshold as i32 {
            None
        } else {
            Some(val)
        }
    }

    /// Whether a report whose pressure normalizes to `normalized_pressure`
    /// starts a stroke (the pen comes down).
    pub fn starts_stroke(&self, normalized_pressure: i32) -> (r: bool)
        ensures
            r == starts_stroke(self@, normalized_pressure),
    {
        !self.was_touching && normalized_pressure > 0
    }

    /// All batches for a report whose pen position the caller has smoothed to
    /// (`smoothed_x`, `smoothed_y`) and whose pressure it has normalized to
    /// `normalized_pressure`: pen buttons, position, contact, express keys.
    /// A report that starts a stroke uses the position it carries instead of
    /// the smoothed one. The report becomes the remembered one.
    pub fn dispatch(
        &mut self,
        raw_data: &RawDataReader,
        smoothed_x: i32,
        smoothed_y: i32,
        normalized_pressure: i32,
    ) -> (r: Vec<Emission>)
        requires
            report_is_complete(raw_data.data@),
        ensures
            emissions_view(r@) == dispatch_emissions(
                old(self)@,
                raw_data.data@,
                smoothed_x,
                smoothed_y,
                normalized_pressure,
            ),
            final(self)@ == dispatch_state(
                old(self)@,
                raw_data.data@,
                smoothed_x,
                smoothed_y,
                normalized_pressure,
            ),
    {
        let mut r = self.emit_pen_events(raw_data, smoothed_x, smoothed_y, normalized_pressure);
        let ghost pen_part = r@;
        let mut t = self.emit_tablet_events(raw_data);
        let ghost tablet_part = t@;
        r.append(&mut t);
        assert(emissions_view(r@) =~= emissions_view(pen_part) + emissions_view(tablet_part));
        r
    }

    /// The pen's batches for a report: pen buttons, position, contact. A
    /// report that starts a stroke uses the position it carries instead of
    /// the smoothed one.
    pub fn emit_pen_events(
        &mut self,
        raw_data: &RawDataReader,
        smoothed_x: i32,
        smoothed_y: i32,
        normalized_pressure: i32,
    ) -> (r: Vec<Emission>)
        requires
            report_is_complete(raw_data.data@),
        ensures
            ({
                let (x, y) = pen_position(
                    old(self)@,
                    raw_data.data@,
                    smoothed_x,
                    smoothed_y,
                    normalized_pressure,
                );
                let is_multimedia_area = spec_y_axis(raw_data.data@) < 0;
                &&& emissions_view(r@) == pen_button_emissions(
                    old(self)@.pen_keys,
                    old(self)@.pen_last_raw_pressed_button,
                    spec_pen_buttons(raw_data.data@),
                ) + pen_abs_emissions(x, y, normalized_pressure, is_multimedia_area)
                    + touch_emissions(old(self)@, x, is_multimedia_area, normalized_pressure)
                &&& final(self)@ == (DispatcherView {
                    pen_last_raw_pressed_button: spec_pen_buttons(raw_data.data@),
                    ..touch_step(old(self)@, x, is_multimedia_area, normalized_pressure)
                })
            }),
    {
        proof {
            use_type_invariant(&*self);
        }
        let raw_x = raw_data.x_axis();
        let y_raw = raw_data.y_axis();
        let is_multimedia_area = y_raw < 0;
        let (x, y) = if self.starts_stroke(normalized_pressure) {
            (raw_x, y_raw)
        } else {
            (smoothed_x, smoothed_y)
        };

        let raw_pen_buttons = raw_data.pen_buttons();
        let mut r = self.raw_pen_buttons_to_pen_key_events(raw_pen_buttons);
        let ghost buttons_part = r@;
        self.pen_last_raw_pressed_button = raw_pen_buttons;
        let ghost after_buttons = self@;

        let mut a = Self::raw_pen_abs_to_pen_abs_events(x, y, normalized_pressure, is_multimedia_area);
        let ghost abs_part = a@;
        r.append(&mut a);
        let mut t = self.pen_emit_touch(x, is_multimedia_area, normalized_pressure);
        let ghost touch_part = t@;
        r.append(&mut t);
        assert(touch_emissions(after_buttons, x, is_multimedia_area, normalized_pressure)
            =~= touch_emissions(old(self)@, x, is_multimedia_area, normalized_pressure));
        assert(emissions_view(r@) =~= emissions_view(buttons_part) + emissions_view(abs_part)
            + emissions_view(touch_part));
        r
    }
}

} // verus!
