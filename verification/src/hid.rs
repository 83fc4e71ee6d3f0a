//! The QuadCast S HID protocol: decoding mute/pattern input reports,
//! choosing the lighting interface among the enumerated HID devices, the
//! 64-byte feature packets that drive and persist the lighting, and a hex
//! dump of packets for logs.
use vstd::prelude::*;

use crate::model::{polar_from_report, polar_label, HidEvent, PolarPattern};
use crate::text::{char_vec, concat2, decimal_seq, decimal_string, owned, push_char};

verus! {

broadcast use vstd::string::group_string_axioms;

// ---------------------------------------------------------------------------
// Input reports
// ---------------------------------------------------------------------------

/// Whether `r` starts with the `05 10` (mute) or `05 11` (pattern) marker.
pub open spec fn has_event_marker(r: Seq<u8>) -> bool {
    r.len() >= 2 && r[0] == 0x05 && (r[1] == 0x10 || r[1] == 0x11)
}

/// The part of an input report that carries an event: the report itself,
/// or the report without its first byte (a report id) when the marker
/// follows that byte.
pub open spec fn event_payload(r: Seq<u8>) -> Option<Seq<u8>> {
    if has_event_marker(r) {
        Some(r)
    } else if r.len() >= 1 && has_event_marker(r.drop_first()) {
        Some(r.drop_first())
    } else {
        None
    }
}

pub open spec fn decode_event(r: Seq<u8>) -> Option<HidEvent> {
    match event_payload(r) {
        Some(p) => if p.len() >= 3 && p[1] == 0x10 {
            Some(HidEvent::Mute(p[2] == 1))
        } else if p.len() >= 3 && p[1] == 0x11 {
            Some(HidEvent::Pattern(polar_from_report(p[2])))
        } else {
            None
        },
        None => None,
    }
}

fn has_marker_at(report: &[u8], at: usize) -> (r: bool)
    requires
        at <= 1,
    ensures
        r == (report@.len() >= at && has_event_marker(report@.subrange(at as int, report@.len() as int))),
{
    report.len() >= at + 2 && report[at] == 0x05 && (report[at + 1] == 0x10 || report[at + 1] == 0x11)
}

pub fn hid_event_payload(report: &[u8]) -> (r: Option<&[u8]>)
    ensures
        match event_payload(report@) {
            Some(p) => r is Some && r->0@ == p,
            None => r is None,
        },
{
    assert(report@.subrange(0, report@.len() as int) =~= report@);
    if has_marker_at(report, 0) {
        Some(report)
    } else if has_marker_at(report, 1) {
        assert(report@.subrange(1, report@.len() as int) =~= report@.drop_first());
        Some(vstd::slice::slice_subrange(report, 1, report.len()))
    } else {
        proof {
            if report@.len() >= 1 {
                assert(report@.subrange(1, report@.len() as int) =~= report@.drop_first());
            }
        }
        None
    }
}

pub fn decode_hid_event(report: &[u8]) -> (r: Option<HidEvent>)
    ensures
        r == decode_event(report@),
{
    match hid_event_payload(report) {
        Some(p) => {
            if p.len() >= 3 && p[1] == 0x10 {
                Some(HidEvent::Mute(p[2] == 1))
            } else if p.len() >= 3 && p[1] == 0x11 {
                Some(HidEvent::Pattern(PolarPattern::from_report(p[2])))
            } else {
                None
            }
        },
        None => None,
    }
}

pub open spec fn event_description(e: HidEvent) -> Seq<char> {
    match e {
        HidEvent::Mute(live) => if live {
            "mute=live/unmuted"@
        } else {
            "mute=muted"@
        },
        HidEvent::Pattern(p) => "pattern="@ + polar_label(p),
    }
}

/// The pattern switch reports the device's numbering: 0 is stereo, 1 omni,
/// 2 cardioid, 3 bidirectional, any other value an unknown pattern; with
/// or without a report-id byte in front.  The mute button reports 1 for
/// live and anything else for muted.
pub proof fn law_report_numbering(v: u8, id: u8, rest: Seq<u8>)
    ensures
        ({
            let pattern = if v == 0 {
                PolarPattern::Stereo
            } else if v == 1 {
                PolarPattern::Omni
            } else if v == 2 {
                PolarPattern::Cardioid
            } else if v == 3 {
                PolarPattern::Bidirectional
            } else {
                PolarPattern::Unknown(v)
            };
            &&& decode_event(seq![0x05u8, 0x11u8, v] + rest) == Some(HidEvent::Pattern(pattern))
            &&& decode_event(seq![id, 0x05u8, 0x11u8, v] + rest) == Some(HidEvent::Pattern(pattern))
            &&& decode_event(seq![0x05u8, 0x10u8, v] + rest) == Some(HidEvent::Mute(v == 1))
        }),
{
    let a = seq![0x05u8, 0x11u8, v] + rest;
    let b = seq![id, 0x05u8, 0x11u8, v] + rest;
    let m = seq![0x05u8, 0x10u8, v] + rest;
    assert(a.subrange(0, a.len() as int) =~= a);
    assert(m.subrange(0, m.len() as int) =~= m);
    assert(b.subrange(1, b.len() as int) =~= a);
    assert(b.drop_first() =~= a);
}

/// A one-line description of the event in an input report, if it has one.
pub fn decode_hid_report(report: &[u8]) -> (r: Option<String>)
    ensures
        match decode_event(report@) {
            Some(e) => r is Some && r->0@ == event_description(e),
            None => r is None,
        },
{
    match decode_hid_event(report) {
        Some(HidEvent::Mute(live)) => {
            if live {
                Some(owned("mute=live/unmuted"))
            } else {
                Some(owned("mute=muted"))
            }
        },
        Some(HidEvent::Pattern(p)) => Some(concat2("pattern=", p.label())),
        None => None,
    }
}

pub open spec fn pattern_description_spec(p: PolarPattern) -> Seq<char> {
    match p {
        PolarPattern::Stereo => "Captures left and right channels for wider sources."@,
        PolarPattern::Omni => "Captures sound evenly from around the microphone."@,
        PolarPattern::Cardioid => "Best for podcasts, streaming, voiceovers and instruments."@,
        PolarPattern::Bidirectional => "Captures from the front and back for interviews."@,
        PolarPattern::Unknown(_) => "Unrecognized hardware pattern report."@,
    }
}

pub fn pattern_description(pattern: PolarPattern) -> (r: &'static str)
    ensures
        r@ == pattern_description_spec(pattern),
{
    match pattern {
        PolarPattern::Stereo => "Captures left and right channels for wider sources.",
        PolarPattern::Omni => "Captures sound evenly from around the microphone.",
        PolarPattern::Cardioid => "Best for podcasts, streaming, voiceovers and instruments.",
        PolarPattern::Bidirectional => "Captures from the front and back for interviews.",
        PolarPattern::Unknown(_) => "Unrecognized hardware pattern report.",
    }
}

// ---------------------------------------------------------------------------
// Hex dumps
// ---------------------------------------------------------------------------

pub open spec fn hex_digit(d: nat) -> char {
    if d < 10 {
        (('0' as u32) + d) as char
    } else {
        (('a' as u32) + d - 10) as char
    }
}

/// `format!("{:02x}", b)`.
pub open spec fn byte_hex(b: u8) -> Seq<char> {
    seq![hex_digit((b / 16) as nat), hex_digit((b % 16) as nat)]
}

/// Two lower-case hex digits per byte, separated by single spaces.
pub open spec fn hex_bytes_seq(s: Seq<u8>) -> Seq<char>
    decreases s.len(),
{
    if s.len() == 0 {
        Seq::empty()
    } else if s.len() == 1 {
        byte_hex(s[0])
    } else {
        hex_bytes_seq(s.drop_last()) + seq![' '] + byte_hex(s.last())
    }
}

fn hex_char(d: u8) -> (r: char)
    requires
        d < 16,
    ensures
        r == hex_digit(d as nat),
{
    if d < 10 {
        (48u8 + d) as char
    } else {
        (87u8 + d) as char
    }
}

pub fn hex_bytes(bytes: &[u8]) -> (r: String)
    ensures
        r@ == hex_bytes_seq(bytes@),
{
    let mut r = String::new();
    let mut i: usize = 0;
    while i < bytes.len()
        invariant
            i <= bytes.len(),
            r@ == hex_bytes_seq(bytes@.subrange(0, i as int)),
        decreases bytes.len() - i,
    {
        let b = bytes[i];
        let ghost before = r@;
        if i > 0 {
            push_char(&mut r, ' ');
        }
        push_char(&mut r, hex_char(b / 16));
        push_char(&mut r, hex_char(b % 16));
        proof {
            let p = bytes@.subrange(0, i + 1);
            assert(p.drop_last() =~= bytes@.subrange(0, i as int));
            assert(p.last() == b);
            if i > 0 {
                assert(r@ =~= before + seq![' '] + byte_hex(b));
            } else {
                assert(r@ =~= byte_hex(b));
            }
        }
        i = i + 1;
    }
    assert(bytes@.subrange(0, bytes.len() as int) =~= bytes@);
    r
}

// ---------------------------------------------------------------------------
// Lighting interface selection
// ---------------------------------------------------------------------------

/// What the selection reads of one enumerated HID interface.
#[derive(Clone, Copy, PartialEq, Eq, Debug, Structural)]
pub struct LightingCandidate {
    pub vendor_id: u16,
    pub product_id: u16,
    pub interface_number: i32,
    pub usage_page: u16,
    pub usage: u16,
}

/// The QuadCast S vendor/product ids that carry the lighting controller.
pub open spec fn is_supported_ids(vendor: u16, product: u16) -> bool {
    ||| (vendor == 0x0951 && product == 0x171f)
    ||| (vendor == 0x03f0 && product == 0x0f8b)
    ||| (vendor == 0x03f0 && product == 0x028c)
    ||| (vendor == 0x03f0 && product == 0x048c)
    ||| (vendor == 0x03f0 && product == 0x068c)
    ||| (vendor == 0x03f0 && product == 0x098c)
}

pub fn is_supported_lighting_device(device: &LightingCandidate) -> (r: bool)
    ensures
        r == is_supported_ids(device.vendor_id, device.product_id),
{
    let v = device.vendor_id;
    let p = device.product_id;
    (v == 0x0951 && p == 0x171f) || (v == 0x03f0 && p == 0x0f8b) || (v == 0x03f0 && p == 0x028c)
        || (v == 0x03f0 && p == 0x048c) || (v == 0x03f0 && p == 0x068c) || (v == 0x03f0 && p
        == 0x098c)
}

/// Preference key of an interface: the RGB collection first, then any
/// vendor-defined usage page, then the controller product id, then
/// interface 0.
pub open spec fn score_spec(d: LightingCandidate) -> (u8, u8, u8, i32) {
    (
        if d.usage_page == 0xff90 && d.usage == 0xff00 { 1u8 } else { 0u8 },
        if d.usage_page == 0xff90 || d.usage_page == 0xff00 || d.usage_page == 0xffff { 1u8 } else { 0u8 },
        if d.product_id == 0x171f { 1u8 } else { 0u8 },
        if d.interface_number == 0 { 1i32 } else { 0i32 },
    )
}

/// Lexicographic `<=` on scores, as the derived tuple order compares them.
pub open spec fn score_le(a: (u8, u8, u8, i32), b: (u8, u8, u8, i32)) -> bool {
    ||| a.0 < b.0
    ||| (a.0 == b.0 && a.1 < b.1)
    ||| (a.0 == b.0 && a.1 == b.1 && a.2 < b.2)
    ||| (a.0 == b.0 && a.1 == b.1 && a.2 == b.2 && a.3 <= b.3)
}

pub fn lighting_device_score(device: &LightingCandidate) -> (r: (u8, u8, u8, i32))
    ensures
        r == score_spec(*device),
{
    let rgb_collection: u8 = if device.usage_page == 0xff90 && device.usage == 0xff00 { 1 } else { 0 };
    let vendor_defined: u8 = if device.usage_page == 0xff90 || device.usage_page == 0xff00
        || device.usage_page == 0xffff { 1 } else { 0 };
    let controller_pid: u8 = if device.product_id == 0x171f { 1 } else { 0 };
    let interface_preference: i32 = if device.interface_number == 0 { 1 } else { 0 };
    (rgb_collection, vendor_defined, controller_pid, interface_preference)
}

fn score_less_eq(a: (u8, u8, u8, i32), b: (u8, u8, u8, i32)) -> (r: bool)
    ensures
        r == score_le(a, b),
{
    a.0 < b.0 || (a.0 == b.0 && a.1 < b.1) || (a.0 == b.0 && a.1 == b.1 && a.2 < b.2) || (a.0
        == b.0 && a.1 == b.1 && a.2 == b.2 && a.3 <= b.3)
}

/// The interface the lighting writer opens: among the supported ones, one
/// with the greatest score, the last such when several tie (as
/// `Iterator::max_by_key` picks); `None` when none is supported.
pub open spec fn is_selected(ds: Seq<LightingCandidate>, i: int) -> bool {
    &&& 0 <= i < ds.len()
    &&& is_supported_ids(ds[i].vendor_id, ds[i].product_id)
    &&& forall|j: int|
        0 <= j < ds.len() && is_supported_ids(ds[j].vendor_id, ds[j].product_id) ==> score_le(
            score_spec(#[trigger] ds[j]),
            score_spec(ds[i]),
        )
    &&& forall|j: int|
        i < j < ds.len() && is_supported_ids(ds[j].vendor_id, ds[j].product_id) ==> !score_le(
            score_spec(ds[i]),
            score_spec(#[trigger] ds[j]),
        )
}

pub fn select_lighting_device(devices: &[LightingCandidate]) -> (r: Option<usize>)
    ensures
        match r {
            Some(i) => is_selected(devices@, i as int),
            None => forall|j: int|
                0 <= j < devices@.len() ==> !is_supported_ids(
                    #[trigger] devices@[j].vendor_id,
                    devices@[j].product_id,
                ),
        },
{
    let mut best: Option<usize> = None;
    let mut i: usize = 0;
    while i < devices.len()
        invariant
            i <= devices@.len(),
            match best {
                Some(b) => {
                    &&& b < i
                    &&& is_supported_ids(devices@[b as int].vendor_id, devices@[b as int].product_id)
                    &&& forall|j: int|
                        0 <= j < i && is_supported_ids(devices@[j].vendor_id, devices@[j].product_id)
                            ==> score_le(score_spec(#[trigger] devices@[j]), score_spec(devices@[b as int]))
                    &&& forall|j: int|
                        b < j < i && is_supported_ids(devices@[j].vendor_id, devices@[j].product_id)
                            ==> !score_le(score_spec(devices@[b as int]), score_spec(#[trigger] devices@[j]))
                },
                None => forall|j: int|
                    0 <= j < i ==> !is_supported_ids(#[trigger] devices@[j].vendor_id, devices@[j].product_id),
            },
        decreases devices.len() - i,
    {
        let d = devices[i];
        if is_supported_lighting_device(&d) {
            match best {
                Some(b) => {
                    let sb = lighting_device_score(&devices[b]);
                    let sd = lighting_device_score(&d);
                    if score_less_eq(sb, sd) {
                        best = Some(i);
                    }
                },
                None => {
                    best = Some(i);
                },
            }
        }
        i = i + 1;
    }
    best
}

/// A detected lighting controller.
#[derive(Clone, Debug)]
pub struct LightingDevice {
    pub vendor_id: u16,
    pub product_id: u16,
    pub interface_number: i32,
    pub usage_page: u16,
    pub usage: u16,
    pub manufacturer: String,
    pub product: String,
}

/// Describes the chosen interface; missing manufacturer and product strings
/// read "HyperX" and "QuadCast S".
pub fn lighting_device_from(
    device: &LightingCandidate,
    manufacturer: Option<&str>,
    product: Option<&str>,
) -> (r: LightingDevice)
    ensures
        r.vendor_id == device.vendor_id,
        r.product_id == device.product_id,
        r.interface_number == device.interface_number,
        r.usage_page == device.usage_page,
        r.usage == device.usage,
        r.manufacturer@ == (match manufacturer {
            Some(m) => m@,
            None => "HyperX"@,
        }),
        r.product@ == (match product {
            Some(p) => p@,
            None => "QuadCast S"@,
        }),
{
    LightingDevice {
        vendor_id: device.vendor_id,
        product_id: device.product_id,
        interface_number: device.interface_number,
        usage_page: device.usage_page,
        usage: device.usage,
        manufacturer: match manufacturer {
            Some(m) => owned(m),
            None => owned("HyperX"),
        },
        product: match product {
            Some(p) => owned(p),
            None => owned("QuadCast S"),
        },
    }
}

/// `format!("{:04x}", v)`.
pub open spec fn hex4(v: u16) -> Seq<char> {
    byte_hex((v / 256) as u8) + byte_hex((v % 256) as u8)
}

fn hex4_text(v: u16) -> (r: String)
    ensures
        r@ == hex4(v),
{
    let hi = (v / 256) as u8;
    let lo = (v % 256) as u8;
    let mut r = String::new();
    push_char(&mut r, hex_char(hi / 16));
    push_char(&mut r, hex_char(hi % 16));
    push_char(&mut r, hex_char(lo / 16));
    push_char(&mut r, hex_char(lo % 16));
    assert(r@ =~= hex4(v));
    r
}

/// Decimal text of a signed number.
pub open spec fn signed_text(v: int) -> Seq<char> {
    if v < 0 {
        "-"@ + decimal_seq((-v) as nat)
    } else {
        decimal_seq(v as nat)
    }
}

fn signed_string(v: i32) -> (r: String)
    ensures
        r@ == signed_text(v as int),
{
    if v < 0 {
        let m: u64 = (-(v as i64)) as u64;
        concat2("-", decimal_string(m).as_str())
    } else {
        decimal_string(v as u64)
    }
}

/// How the HID monitor names an interface:
/// `vvvv:pppp if<n> uuuu:uuuu` (vendor, product, interface, usage page, usage).
pub open spec fn interface_label_spec(d: LightingCandidate) -> Seq<char> {
    hex4(d.vendor_id) + ":"@ + hex4(d.product_id) + " if"@ + signed_text(d.interface_number as int)
        + " "@ + hex4(d.usage_page) + ":"@ + hex4(d.usage)
}

pub fn interface_label(d: &LightingCandidate) -> (r: String)
    ensures
        r@ == interface_label_spec(*d),
{
    let mut r = hex4_text(d.vendor_id);
    r.append(":");
    r.append(hex4_text(d.product_id).as_str());
    r.append(" if");
    r.append(signed_string(d.interface_number).as_str());
    r.append(" ");
    r.append(hex4_text(d.usage_page).as_str());
    r.append(":");
    r.append(hex4_text(d.usage).as_str());
    r
}

/// `format!("{:>6}", text)`: right-aligned in six columns.
pub open spec fn pad6(t: Seq<char>) -> Seq<char> {
    if t.len() < 6 {
        Seq::new((6 - t.len()) as nat, |i: int| ' ') + t
    } else {
        t
    }
}

fn pad6_text(t: String) -> (r: String)
    ensures
        r@ == pad6(t@),
{
    let n = char_vec(t.as_str()).len();
    if n >= 6 {
        return t;
    }
    let mut r = String::new();
    let mut i: usize = n;
    while i < 6
        invariant
            n <= i <= 6,
            n == t@.len(),
            r@ == Seq::new((i - n) as nat, |k: int| ' '),
        decreases 6 - i,
    {
        push_char(&mut r, ' ');
        assert(r@ =~= Seq::new((i + 1 - n) as nat, |k: int| ' '));
        i = i + 1;
    }
    r.append(t.as_str());
    r
}

/// `<elapsed, right-aligned>ms `.
pub open spec fn elapsed_prefix(elapsed_ms: u64) -> Seq<char> {
    pad6(decimal_seq(elapsed_ms as nat)) + "ms "@
}

fn elapsed_text(elapsed_ms: u64) -> (r: String)
    ensures
        r@ == elapsed_prefix(elapsed_ms),
{
    let mut r = pad6_text(decimal_string(elapsed_ms));
    r.append("ms ");
    r
}

/// A line of the HID monitor for a report read from an interface: the
/// time, the interface, the report's bytes and, when the report carries an
/// event, its description.
pub open spec fn report_line_spec(elapsed_ms: u64, label: Seq<char>, report: Seq<u8>) -> Seq<char> {
    elapsed_prefix(elapsed_ms) + label + " "@ + hex_bytes_seq(report) + match decode_event(report) {
        Some(e) => " "@ + event_description(e),
        None => Seq::empty(),
    }
}

pub fn monitor_report_line(elapsed_ms: u64, label: &str, report: &[u8]) -> (r: String)
    ensures
        r@ == report_line_spec(elapsed_ms, label@, report@),
{
    let mut r = elapsed_text(elapsed_ms);
    r.append(label);
    r.append(" ");
    r.append(hex_bytes(report).as_str());
    match decode_hid_report(report) {
        Some(d) => {
            r.append(" ");
            r.append(d.as_str());
        },
        None => {},
    }
    r
}

/// A line of the HID monitor for a failed read.
pub fn monitor_error_line(elapsed_ms: u64, label: &str, error: &str) -> (r: String)
    ensures
        r@ == elapsed_prefix(elapsed_ms) + label@ + " read-error: "@ + error@,
{
    let mut r = elapsed_text(elapsed_ms);
    r.append(label);
    r.append(" read-error: ");
    r.append(error);
    r
}

/// A line of the HID monitor when the system microphone volume changes.
pub fn monitor_volume_line(elapsed_ms: u64, volume: u8) -> (r: String)
    ensures
        r@ == elapsed_prefix(elapsed_ms) + "core-audio mic-volume="@ + decimal_seq(volume as nat),
{
    let mut r = elapsed_text(elapsed_ms);
    r.append("core-audio mic-volume=");
    r.append(decimal_string(volume as u64).as_str());
    r
}

// ---------------------------------------------------------------------------
// Feature packets
// ---------------------------------------------------------------------------

/// A 64-byte packet of zeros with the given bytes set.
pub open spec fn packet_with(sets: Map<int, u8>) -> Seq<u8> {
    Seq::new(64, |i: int| if sets.dom().contains(i) { sets[i] } else { 0u8 })
}

/// `04 f2 .. 01 ..`: announces that a frame packet follows.
pub open spec fn display_header_spec() -> Seq<u8> {
    packet_with(map![0int => 0x04u8, 1int => 0xf2u8, 8int => 0x01u8])
}

pub open spec fn save_prepare_spec() -> Seq<u8> {
    packet_with(map![0int => 0x04u8, 1int => 0x53u8, 8int => 0x01u8])
}

pub open spec fn save_state_spec() -> Seq<u8> {
    packet_with(map![0int => 0x04u8, 1int => 0x02u8])
}

pub open spec fn save_commit_spec() -> Seq<u8> {
    packet_with(map![0int => 0x04u8, 1int => 0x23u8, 8int => 0x01u8])
}

pub open spec fn save_sentinel_spec() -> Seq<u8> {
    packet_with(
        map![0int => 0x08u8, 59int => 0x28u8, 60int => 0x01u8, 61int => 0x00u8, 62int => 0xaau8, 63int => 0x55u8],
    )
}

pub fn build_display_header_packet() -> (r: [u8; 64])
    ensures
        r@ == display_header_spec(),
{
    let mut packet = [0u8; 64];
    packet[0] = 0x04;
    packet[1] = 0xf2;
    packet[8] = 0x01;
    assert(packet@ =~= display_header_spec());
    packet
}

pub fn build_save_prepare_packet() -> (r: [u8; 64])
    ensures
        r@ == save_prepare_spec(),
{
    let mut packet = [0u8; 64];
    packet[0] = 0x04;
    packet[1] = 0x53;
    packet[8] = 0x01;
    assert(packet@ =~= save_prepare_spec());
    packet
}

pub fn build_save_state_packet() -> (r: [u8; 64])
    ensures
        r@ == save_state_spec(),
{
    let mut packet = [0u8; 64];
    packet[0] = 0x04;
    packet[1] = 0x02;
    assert(packet@ =~= save_state_spec());
    packet
}

pub fn build_save_commit_packet() -> (r: [u8; 64])
    ensures
        r@ == save_commit_spec(),
{
    let mut packet = [0u8; 64];
    packet[0] = 0x04;
    packet[1] = 0x23;
    packet[8] = 0x01;
    assert(packet@ =~= save_commit_spec());
    packet
}

pub fn build_save_sentinel_packet() -> (r: [u8; 64])
    ensures
        r@ == save_sentinel_spec(),
{
    let mut packet = [0u8; 64];
    packet[0] = 0x08;
    packet[59] = 0x28;
    packet[60] = 0x01;
    packet[61] = 0x00;
    packet[62] = 0xaa;
    packet[63] = 0x55;
    assert(packet@ =~= save_sentinel_spec());
    packet
}

/// The "Save to Microphone" exchange, in the order the packets are sent;
/// the flag says whether a feature report is read back after the packet.
pub fn save_lighting_sequence() -> (r: Vec<([u8; 64], bool)>)
    ensures
        r@.len() == 5,
        r@[0].0@ == save_prepare_spec() && !r@[0].1,
        r@[1].0@ == save_state_spec() && r@[1].1,
        r@[2].0@ == save_commit_spec() && r@[2].1,
        r@[3].0@ == save_sentinel_spec() && !r@[3].1,
        r@[4].0@ == save_state_spec() && r@[4].1,
{
    let mut r: Vec<([u8; 64], bool)> = Vec::new();
    r.push((build_save_prepare_packet(), false));
    r.push((build_save_state_packet(), true));
    r.push((build_save_commit_packet(), true));
    r.push((build_save_sentinel_packet(), false));
    r.push((build_save_state_packet(), true));
    r
}

// ---------------------------------------------------------------------------
// Writing packets
// ---------------------------------------------------------------------------

/// The packet preceded by a zero report id, as feature and output reports
/// with a report id carry it.
pub fn with_report_id(packet: &[u8; 64]) -> (r: [u8; 65])
    ensures
        r@ == seq![0u8] + packet@,
{
    let mut r = [0u8; 65];
    let mut i: usize = 0;
    while i < 64
        invariant
            i <= 64,
            r@.len() == 65,
            r@[0] == 0,
            forall|k: int| 1 <= k <= i ==> r@[k] == packet@[k - 1],
        decreases 64 - i,
    {
        r[i + 1] = packet[i];
        i = i + 1;
    }
    assert(r@ =~= seq![0u8] + packet@);
    r
}

/// One way of sending a packet to the lighting controller.
#[derive(Clone, Copy, PartialEq, Eq, Debug, Structural)]
pub struct SendAttempt {
    /// Through a feature report (otherwise an output report).
    pub feature: bool,
    /// With the zero report id in front.
    pub report_id: bool,
}

pub open spec fn attempt_name(a: SendAttempt) -> Seq<char> {
    if a.feature && a.report_id {
        "feature+id"@
    } else if a.feature {
        "feature"@
    } else if a.report_id {
        "output+id"@
    } else {
        "output"@
    }
}

pub fn send_attempt_name(a: SendAttempt) -> (r: &'static str)
    ensures
        r@ == attempt_name(a),
{
    if a.feature && a.report_id {
        "feature+id"
    } else if a.feature {
        "feature"
    } else if a.report_id {
        "output+id"
    } else {
        "output"
    }
}

/// The ways a packet is tried, in order, until one succeeds: feature
/// report with and without report id, then output report with and without.
pub fn send_attempts() -> (r: Vec<SendAttempt>)
    ensures
        r@ == seq![
            SendAttempt { feature: true, report_id: true },
            SendAttempt { feature: true, report_id: false },
            SendAttempt { feature: false, report_id: true },
            SendAttempt { feature: false, report_id: false },
        ],
{
    let mut r: Vec<SendAttempt> = Vec::new();
    r.push(SendAttempt { feature: true, report_id: true });
    r.push(SendAttempt { feature: true, report_id: false });
    r.push(SendAttempt { feature: false, report_id: true });
    r.push(SendAttempt { feature: false, report_id: false });
    r
}

/// `name: error` for a failed attempt.
pub fn attempt_error(a: SendAttempt, error: &str) -> (r: String)
    ensures
        r@ == attempt_name(a) + ": "@ + error@,
{
    crate::text::concat3(send_attempt_name(a), ": ", error)
}

/// The errors joined with `"; "`, as the failure of a packet write reports
/// them.
pub open spec fn joined(errors: Seq<Seq<char>>) -> Seq<char>
    decreases errors.len(),
{
    if errors.len() == 0 {
        Seq::empty()
    } else if errors.len() == 1 {
        errors[0]
    } else {
        joined(errors.drop_last()) + "; "@ + errors.last()
    }
}

pub fn join_errors(errors: &Vec<String>) -> (r: String)
    ensures
        r@ == joined(errors@.map_values(|e: String| e@)),
{
    let ghost all = errors@.map_values(|e: String| e@);
    let mut r = String::new();
    let mut i: usize = 0;
    while i < errors.len()
        invariant
            i <= errors@.len(),
            all == errors@.map_values(|e: String| e@),
            r@ == joined(all.subrange(0, i as int)),
        decreases errors@.len() - i,
    {
        let ghost prefix = all.subrange(0, i + 1);
        assert(prefix.drop_last() =~= all.subrange(0, i as int));
        if i > 0 {
            r.append("; ");
        } else {
            assert(all.subrange(0, 0) =~= Seq::<Seq<char>>::empty());
        }
        r.append(errors[i].as_str());
        i = i + 1;
    }
    assert(all.subrange(0, errors@.len() as int) =~= all);
    r
}

} // verus!
