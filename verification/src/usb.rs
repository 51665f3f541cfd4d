//! The decisions of the USB side of the driver: which device is the
//! tablet, which endpoint carries its reports, what switches it to full
//! mode, and what to do with the outcome of a read.
use vstd::prelude::*;

verus! {

/// USB vendor id of the tablet.
pub const VID: u16 = 0x08f2;

/// USB product id of the tablet.
pub const PID: u16 = 0x6811;

/// Size of the interrupt packets that carry the tablet's reports.
pub const REPORT_PACKET_SIZE: u16 = 64;

/// `bmRequestType` of the HID SET_REPORT request (class request to an
/// interface, host to device).
pub const SET_REPORT_REQUEST_TYPE: u8 = 0x21;

/// `bRequest` of the HID SET_REPORT request.
pub const SET_REPORT_REQUEST: u8 = 0x09;

/// `wValue` of the SET_REPORT request: feature report number 8.
pub const SET_REPORT_VALUE: u16 = 0x0308;

/// `wIndex` of the SET_REPORT request: the interface that takes it.
pub const SET_REPORT_INDEX: u16 = 2;

/// Time allowed for one SET_REPORT request, in milliseconds.
pub const SET_REPORT_TIMEOUT_MS: u64 = 250;

/// Time allowed for one interrupt read, in milliseconds.
pub const READ_TIMEOUT_MS: u64 = 1000;

/// Time to wait before looking for the tablet again, in milliseconds.
pub const RECONNECT_DELAY_MS: u64 = 500;

/// The feature report that switches the tablet to full mode (all keys and
/// the whole active area).
pub open spec fn full_mode_report() -> Seq<u8> {
    seq![0x08u8, 0x03u8, 0x00u8, 0xffu8, 0xf0u8, 0x00u8, 0xffu8, 0xf0u8]
}

/// What the driver reads of an endpoint descriptor.
#[derive(Clone, Copy, PartialEq, Eq, Debug, Structural)]
pub struct EndpointInfo {
    pub address: u8,
    pub is_interrupt: bool,
    pub max_packet_size: u16,
}

/// An endpoint that can carry the tablet's reports.
pub open spec fn is_report_endpoint(e: EndpointInfo) -> bool {
    e.is_interrupt && e.max_packet_size == REPORT_PACKET_SIZE
}

/// The address of the last report endpoint of `endpoints`, or `current`
/// if there is none.
pub open spec fn last_report_endpoint(endpoints: Seq<EndpointInfo>, current: Option<u8>) -> Option<u8>
    decreases endpoints.len(),
{
    if endpoints.len() == 0 {
        current
    } else if is_report_endpoint(endpoints.last()) {
        Some(endpoints.last().address)
    } else {
        last_report_endpoint(endpoints.drop_last(), current)
    }
}

/// The endpoint to read from after looking at the endpoints of one claimed
/// interface: the last that can carry reports, else the one chosen before.
pub fn select_endpoint(current: Option<u8>, endpoints: &Vec<EndpointInfo>) -> (r: Option<u8>)
    ensures
        r == last_report_endpoint(endpoints@, current),
        r is Some ==> r == current || exists|i: int|
            0 <= i < endpoints@.len() && is_report_endpoint(#[trigger] endpoints@[i])
                && r == Some(endpoints@[i].address),
{
    let mut r = current;
    let n = endpoints.len();
    let mut i: usize = 0;
    while i < n
        invariant
            n == endpoints@.len(),
            i <= n,
            r == last_report_endpoint(endpoints@.take(i as int), current),
            r is Some ==> r == current || exists|j: int|
                0 <= j < i && is_report_endpoint(#[trigger] endpoints@[j]) && r == Some(
                    endpoints@[j].address,
                ),
        decreases n - i,
    {
        let e = endpoints[i];
        assert(endpoints@.take(i + 1).drop_last() =~= endpoints@.take(i as int));
        if e.is_interrupt && e.max_packet_size == REPORT_PACKET_SIZE {
            r = Some(e.address);
        }
        i = i + 1;
    }
    assert(endpoints@.take(n as int) =~= endpoints@);
    r
}

/// The interface class code of HID interfaces (the USB-IF value 3).
pub open spec fn hid_interface_class() -> u8 {
    3
}

/// The HID interface class code as rusb defines it.
///
/// Trusted: `rusb::constants::LIBUSB_CLASS_HID` is libusb1-sys's constant
/// `LIBUSB_CLASS_HID: u8 = 3`; the contract claims that value.
#[verifier::external_body]
fn hid_class_code() -> (c: u8)
    ensures
        c == hid_interface_class(),
{
    rusb::constants::LIBUSB_CLASS_HID
}

/// The positions, in order, of the HID interfaces among interfaces with
/// the class codes `class_codes`.
pub open spec fn hid_interface_positions(class_codes: Seq<u8>) -> Seq<usize>
    decreases class_codes.len(),
{
    if class_codes.len() == 0 {
        seq![]
    } else {
        hid_interface_positions(class_codes.drop_last()) + if class_codes.last()
            == hid_interface_class() {
            seq![(class_codes.len() - 1) as usize]
        } else {
            seq![]
        }
    }
}

/// Of interfaces with the class codes `class_codes` (in the order of the
/// device's configurations), the positions of those that are HID
/// interfaces, in order.
pub fn select_hid_interfaces(class_codes: &Vec<u8>) -> (r: Vec<usize>)
    ensures
        r@ == hid_interface_positions(class_codes@),
{
    let hid = hid_class_code();
    let mut r: Vec<usize> = Vec::new();
    let n = class_codes.len();
    let mut i: usize = 0;
    while i < n
        invariant
            n == class_codes@.len(),
            i <= n,
            hid == hid_interface_class(),
            r@ == hid_interface_positions(class_codes@.take(i as int)),
        decreases n - i,
    {
        assert(class_codes@.take(i + 1).drop_last() =~= class_codes@.take(i as int));
        if class_codes[i] == hid {
            r.push(i);
            assert(r@ =~= hid_interface_positions(class_codes@.take(i + 1)));
        } else {
            assert(r@ =~= hid_interface_positions(class_codes@.take(i + 1)));
        }
        i = i + 1;
    }
    assert(class_codes@.take(n as int) =~= class_codes@);
    r
}

/// Whether a device whose descriptor reads `descriptor_ids` (vendor and
/// product id; `None` when it cannot be read) is the device `vid`:`pid`.
pub fn is_target_device(vid: u16, pid: u16, descriptor_ids: Option<(u16, u16)>) -> (r: bool)
    ensures
        r == (descriptor_ids == Some((vid, pid))),
{
    match descriptor_ids {
        Some((vendor_id, product_id)) => vendor_id == vid && product_id == pid,
        None => false,
    }
}

/// The feature reports that switch the tablet to full mode, in the order in
/// which they are sent.
pub fn full_mode_reports() -> (r: Vec<Vec<u8>>)
    ensures
        r@.len() == 1,
        r@[0]@ == full_mode_report(),
{
    let mut report: Vec<u8> = Vec::new();
    report.push(0x08);
    report.push(0x03);
    report.push(0x00);
    report.push(0xff);
    report.push(0xf0);
    report.push(0x00);
    report.push(0xff);
    report.push(0xf0);
    assert(report@ =~= full_mode_report());
    let mut r: Vec<Vec<u8>> = Vec::new();
    r.push(report);
    r
}

/// How a read of the report endpoint ended.
#[derive(Clone, Copy, PartialEq, Eq, Debug, Structural)]
pub enum ReadOutcome {
    /// The read delivered this many bytes.
    Received(usize),
    /// Nothing arrived in time.
    TimedOut,
    /// The device failed or went away.
    Failed,
}

/// What the driver does next after a read.
#[derive(Clone, Copy, PartialEq, Eq, Debug, Structural)]
pub enum LoopAction {
    /// Turn the report into events and close them with synchronization
    /// reports.
    DispatchReport,
    /// Read again.
    ReadAgain,
    /// Forget the device and look for it again.
    Reconnect,
}

/// The driver's answer to the outcome of a read: a report with data is
/// dispatched, an empty read or a timeout is followed by another read, and
/// any other failure drops the device.
pub fn action_for_read(outcome: ReadOutcome) -> (r: LoopAction)
    ensures
        r == (match outcome {
            ReadOutcome::Received(len) => if len > 0 {
                LoopAction::DispatchReport
            } else {
                LoopAction::ReadAgain
            },
            ReadOutcome::TimedOut => LoopAction::ReadAgain,
            ReadOutcome::Failed => LoopAction::Reconnect,
        }),
{
    match outcome {
        ReadOutcome::Received(len) => if len > 0 {
            LoopAction::DispatchReport
        } else {
            LoopAction::ReadAgain
        },
        ReadOutcome::TimedOut => LoopAction::ReadAgain,
        ReadOutcome::Failed => LoopAction::Reconnect,
    }
}

/// The endpoint chosen among `endpoints` is the last one that can carry
/// reports: if endpoint `i` can and none after it can, its address is
/// chosen; if none can, the previous choice stays.
pub proof fn lemma_last_report_endpoint_wins(endpoints: Seq<EndpointInfo>, current: Option<u8>, i: int)
    requires
        0 <= i < endpoints.len(),
        endpoints[i].is_interrupt && endpoints[i].max_packet_size == 64,
        forall|j: int|
            i < j < endpoints.len() ==> !((#[trigger] endpoints[j]).is_interrupt
                && endpoints[j].max_packet_size == 64),
    ensures
        last_report_endpoint(endpoints, current) == Some(endpoints[i].address),
    decreases endpoints.len(),
{
    if i < endpoints.len() - 1 {
        let rest = endpoints.drop_last();
        assert(!is_report_endpoint(endpoints.last()));
        assert forall|j: int| i < j < rest.len() implies !((#[trigger] rest[j]).is_interrupt
            && rest[j].max_packet_size == 64) by {
            assert(rest[j] == endpoints[j]);
        }
        lemma_last_report_endpoint_wins(rest, current, i);
    }
}

/// With no endpoint that can carry reports, the previous choice stays.
pub proof fn lemma_no_report_endpoint_keeps_choice(endpoints: Seq<EndpointInfo>, current: Option<u8>)
    requires
        forall|j: int|
            0 <= j < endpoints.len() ==> !((#[trigger] endpoints[j]).is_interrupt
                && endpoints[j].max_packet_size == 64),
    ensures
        last_report_endpoint(endpoints, current) == current,
    decreases endpoints.len(),
{
    if endpoints.len() > 0 {
        let rest = endpoints.drop_last();
        assert(!is_report_endpoint(endpoints.last()));
        assert forall|j: int| 0 <= j < rest.len() implies !((#[trigger] rest[j]).is_interrupt
            && rest[j].max_packet_size == 64) by {
            assert(rest[j] == endpoints[j]);
        }
        lemma_no_report_endpoint_keeps_choice(rest, current);
    }
}

/// The selected interfaces are exactly those with class code 3 (HID), each
/// once, in increasing position.
pub proof fn lemma_hid_positions_are_the_hid_interfaces(class_codes: Seq<u8>)
    requires
        class_codes.len() <= usize::MAX,
    ensures
        forall|i: int|
            0 <= i < class_codes.len() ==> (hid_interface_positions(class_codes).contains(i as usize)
                <==> #[trigger] class_codes[i] == 3),
        forall|k: int|
            0 <= k < hid_interface_positions(class_codes).len() ==> (#[trigger] hid_interface_positions(
                class_codes,
            )[k]) < class_codes.len(),
        forall|k1: int, k2: int|
            0 <= k1 < k2 < hid_interface_positions(class_codes).len() ==> #[trigger] hid_interface_positions(
                class_codes,
            )[k1] < #[trigger] hid_interface_positions(class_codes)[k2],
    decreases class_codes.len(),
{
    if class_codes.len() > 0 {
        let rest = class_codes.drop_last();
        lemma_hid_positions_are_the_hid_interfaces(rest);
        let pr = hid_interface_positions(rest);
        let p = hid_interface_positions(class_codes);
        let n = class_codes.len();
        let tail: Seq<usize> = if class_codes.last() == 3 {
            seq![(n - 1) as usize]
        } else {
            seq![]
        };
        assert(p == pr + tail);
        assert forall|i: int| 0 <= i < n implies (p.contains(i as usize) <==> #[trigger] class_codes[i] == 3) by {
            if i < n - 1 {
                assert(rest[i] == class_codes[i]);
                if p.contains(i as usize) {
                    let k = choose|k: int| 0 <= k < p.len() && p[k] == i as usize;
                    if k >= pr.len() {
                        assert(p[k] == (n - 1) as usize);
                    } else {
                        assert(pr[k] == i as usize);
                        assert(pr.contains(i as usize));
                    }
                }
                if class_codes[i] == 3 {
                    assert(pr.contains(i as usize));
                    let k = choose|k: int| 0 <= k < pr.len() && pr[k] == i as usize;
                    assert(p[k] == i as usize);
                }
            } else {
                if class_codes[i] == 3 {
                    assert(p[pr.len() as int] == i as usize);
                }
                if p.contains(i as usize) {
                    let k = choose|k: int| 0 <= k < p.len() && p[k] == i as usize;
                    if k < pr.len() {
                        assert(pr[k] < rest.len());
                    }
                }
            }
        }
        assert forall|k: int| 0 <= k < p.len() implies (#[trigger] p[k]) < n by {
            if k < pr.len() {
                assert(p[k] == pr[k]);
            }
        }
        assert forall|k1: int, k2: int| 0 <= k1 < k2 < p.len() implies #[trigger] p[k1] < #[trigger] p[k2] by {
            if k2 < pr.len() {
                assert(p[k1] == pr[k1] && p[k2] == pr[k2]);
            } else {
                assert(p[k1] == pr[k1]);
                assert(pr[k1] < rest.len());
            }
        }
    }
}

} // verus!
