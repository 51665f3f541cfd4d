//! The input events that the driver sends to its virtual devices.
//!
//! Keys are named here; their numeric Linux codes are the business of
//! the code that writes the events to uinput.
use vstd::prelude::*;

verus! {

/// The keys and buttons that the driver can report.
#[derive(Clone, Copy, PartialEq, Eq, Debug, Hash, Structural)]
pub enum Key {
    KeyMute,
    KeyVolumeDown,
    KeyVolumeUp,
    KeyPlayer,
    KeyPlayPause,
    KeyPreviousSong,
    KeyNextSong,
    KeyHome,
    KeyCalc,
    KeyLeftMeta,
    KeyD,
    KeyTab,
    KeySpace,
    KeyLeftAlt,
    KeyLeftCtrl,
    KeyPageUp,
    KeyPageDown,
    KeyLeftBrace,
    KeyKpMinus,
    KeyKpPlus,
    KeyEsc,
    KeyB,
    KeyRightBrace,
    BtnStylus,
    BtnStylus2,
    BtnToolPen,
    BtnTouch,
    BtnLeft,
    BtnRight,
}

/// What an event reports: a key, an absolute axis, or the end of a batch.
#[derive(Clone, Copy, PartialEq, Eq, Debug, Structural)]
pub enum EventCode {
    Key(Key),
    AbsX,
    AbsY,
    AbsPressure,
    SynReport,
}

/// One input event: its code and its value.
#[derive(Clone, Copy, PartialEq, Eq, Debug, Structural)]
pub struct Event {
    pub code: EventCode,
    pub value: i32,
}

/// The three virtual devices of the driver.
#[derive(Clone, Copy, PartialEq, Eq, Debug, Structural)]
pub enum OutputDevice {
    /// The pen: position, pressure, touch and the pen's buttons.
    Pen,
    /// The keyboard of the express keys.
    Keyboard,
    /// The keyboard of the media strip above the drawing area.
    MediaKeyboard,
}

/// One write of a batch of events to one virtual device.
#[derive(PartialEq, Eq, Debug)]
pub struct Emission {
    pub device: OutputDevice,
    pub events: Vec<Event>,
}

impl View for Emission {
    type V = (OutputDevice, Seq<Event>);

    open spec fn view(&self) -> (OutputDevice, Seq<Event>) {
        (self.device, self.events@)
    }
}

/// The batches of a list of emissions, in order.
pub open spec fn emissions_view(s: Seq<Emission>) -> Seq<(OutputDevice, Seq<Event>)> {
    s.map_values(|e: Emission| e@)
}

/// A batch of one key event.
pub open spec fn key_event(device: OutputDevice, key: Key, value: i32) -> (
    OutputDevice,
    Seq<Event>,
) {
    (device, seq![Event { code: EventCode::Key(key), value }])
}

/// One batch per key, each holding that key's event with `value`.
pub open spec fn key_events(device: OutputDevice, keys: Seq<Key>, value: i32) -> Seq<
    (OutputDevice, Seq<Event>),
> {
    Seq::new(keys.len(), |j: int| key_event(device, keys[j], value))
}

/// Each key of a list yields exactly one batch, in the list's order, holding
/// that key's event with the given value; whatever the value, a release
/// names the same keys, in the same order, as the press.
pub proof fn lemma_key_events_one_batch_per_key(device: OutputDevice, keys: Seq<Key>, value: i32)
    ensures
        key_events(device, keys, value).len() == keys.len(),
        forall|j: int|
            0 <= j < keys.len() ==> #[trigger] key_events(device, keys, value)[j] == (
                device,
                seq![Event { code: EventCode::Key(keys[j]), value: value }],
            ),
        forall|j: int, v: i32|
            0 <= j < keys.len() ==> (#[trigger] key_events(device, keys, v)[j]).1[0].code == key_events(
                device,
                keys,
                value,
            )[j].1[0].code,
{
}

/// A batch holding a lone synchronization report.
pub open spec fn syn_report(device: OutputDevice) -> (OutputDevice, Seq<Event>) {
    (device, seq![Event { code: EventCode::SynReport, value: 0 }])
}

/// A batch of one key event.
pub fn single_key_event(device: OutputDevice, key: Key, value: i32) -> (e: Emission)
    ensures
        e@ == key_event(device, key, value),
{
    let mut events = Vec::new();
    events.push(Event { code: EventCode::Key(key), value });
    Emission { device, events }
}

/// A batch holding a lone synchronization report.
pub fn single_syn_report(device: OutputDevice) -> (e: Emission)
    ensures
        e@ == syn_report(device),
{
    let mut events = Vec::new();
    events.push(Event { code: EventCode::SynReport, value: 0 });
    Emission { device, events }
}

/// Appends one batch per key of `keys`, each with the key's event
/// carrying `value`.
pub fn push_key_events(out: &mut Vec<Emission>, device: OutputDevice, keys: &Vec<Key>, value: i32)
    ensures
        emissions_view(final(out)@) == emissions_view(old(out)@) + key_events(
            device,
            keys@,
            value,
        ),
{
    let ghost start = out@;
    let n = keys.len();
    let mut j: usize = 0;
    while j < n
        invariant
            n == keys@.len(),
            j <= n,
            emissions_view(out@) == emissions_view(start) + key_events(device, keys@.take(j as int), value),
        decreases n - j,
    {
        let e = single_key_event(device, keys[j], value);
        let ghost before = out@;
        out.push(e);
        assert(emissions_view(out@) =~= emissions_view(before).push(e@));
        assert(key_events(device, keys@.take(j + 1), value) =~= key_events(
            device,
            keys@.take(j as int),
            value,
        ).push(key_event(device, keys@[j as int], value)));
        j = j + 1;
    }
    assert(keys@.take(n as int) =~= keys@);
}

} // verus!
