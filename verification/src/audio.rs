//! The audio side of the command line: which audio control a word names,
//! the topology part ids behind each control, argument parsing, endpoint
//! state names and the JSON string escaping of the status output.
use vstd::prelude::*;

use crate::text::{
    char_vec, chars_eq_str, concat2, contains_vec, decimal_seq, decimal_string, has_infix,
    lower_seq, lower_vec, owned, parse_unsigned, parse_unsigned_spec, push_char,
};

verus! {

broadcast use vstd::string::group_string_axioms;

/// One of the microphone's three volume controls.
#[derive(Clone, Copy, PartialEq, Eq, Debug, Structural)]
pub enum AudioClassControl {
    Mic,
    Monitoring,
    Headphone,
}

pub open spec fn control_from_word(word: Seq<char>) -> Option<AudioClassControl> {
    let l = lower_seq(word);
    if l == "mic"@ || l == "microphone"@ || l == "input"@ {
        Some(AudioClassControl::Mic)
    } else if l == "monitoring"@ || l == "monitor"@ || l == "sidetone"@ {
        Some(AudioClassControl::Monitoring)
    } else if l == "headphone"@ || l == "headphones"@ || l == "output"@ {
        Some(AudioClassControl::Headphone)
    } else {
        None
    }
}

pub open spec fn control_label(c: AudioClassControl) -> Seq<char> {
    match c {
        AudioClassControl::Mic => "mic"@,
        AudioClassControl::Monitoring => "monitoring"@,
        AudioClassControl::Headphone => "headphone"@,
    }
}

impl AudioClassControl {
    /// The control a command-line word names, in any ASCII case.
    pub fn parse(value: &str) -> (r: Option<Self>)
        ensures
            r == control_from_word(value@),
    {
        let l = lower_vec(&char_vec(value));
        if chars_eq_str(&l, "mic") || chars_eq_str(&l, "microphone") || chars_eq_str(&l, "input") {
            Some(AudioClassControl::Mic)
        } else if chars_eq_str(&l, "monitoring") || chars_eq_str(&l, "monitor") || chars_eq_str(
            &l,
            "sidetone",
        ) {
            Some(AudioClassControl::Monitoring)
        } else if chars_eq_str(&l, "headphone") || chars_eq_str(&l, "headphones") || chars_eq_str(
            &l,
            "output",
        ) {
            Some(AudioClassControl::Headphone)
        } else {
            None
        }
    }

    pub fn label(self) -> (r: &'static str)
        ensures
            r@ == control_label(self),
    {
        match self {
            AudioClassControl::Mic => "mic",
            AudioClassControl::Monitoring => "monitoring",
            AudioClassControl::Headphone => "headphone",
        }
    }

    /// Id of the device-topology part that holds the control's volume.
    pub fn volume_part_id(self) -> (r: u32)
        ensures
            r == match self {
                AudioClassControl::Mic => 0x20008u32,
                AudioClassControl::Monitoring => 0x2000au32,
                AudioClassControl::Headphone => 0x20006u32,
            },
    {
        match self {
            AudioClassControl::Mic => 0x20008,
            AudioClassControl::Monitoring => 0x2000a,
            AudioClassControl::Headphone => 0x20006,
        }
    }

    /// Id of the device-topology part that holds the control's mute.
    pub fn mute_part_id(self) -> (r: u32)
        ensures
            r == match self {
                AudioClassControl::Mic => 0x20007u32,
                AudioClassControl::Monitoring => 0x20009u32,
                AudioClassControl::Headphone => 0x20005u32,
            },
    {
        match self {
            AudioClassControl::Mic => 0x20007,
            AudioClassControl::Monitoring => 0x20009,
            AudioClassControl::Headphone => 0x20005,
        }
    }

    /// Which kind of endpoint carries the control: the headphone output is
    /// a render endpoint, the microphone and its monitoring are capture.
    pub fn endpoint_flow(self) -> (r: DataFlow)
        ensures
            r == (if self == AudioClassControl::Headphone {
                DataFlow::Render
            } else {
                DataFlow::Capture
            }),
    {
        match self {
            AudioClassControl::Headphone => DataFlow::Render,
            AudioClassControl::Mic | AudioClassControl::Monitoring => DataFlow::Capture,
        }
    }
}

/// The direction of an audio endpoint.
#[derive(Clone, Copy, PartialEq, Eq, Debug, Structural)]
pub enum DataFlow {
    Render,
    Capture,
}

/// The message both argument parsers give for a value they do not accept.
pub open spec fn percent_arg_error() -> Seq<char> {
    "Percent must be a number from 0 to 100."@
}

pub open spec fn on_off_arg_error() -> Seq<char> {
    "Mute value must be on/off or true/false."@
}

/// A percentage argument: a `u8` as `str::parse` reads it, at most 100.
pub open spec fn percent_arg_spec(value: Seq<char>) -> Option<u8> {
    match parse_unsigned_spec(value, 10, 255) {
        Some(v) => if v <= 100 {
            Some(v as u8)
        } else {
            None
        },
        None => None,
    }
}

pub fn parse_percent_arg(value: &str) -> (r: Result<u8, String>)
    ensures
        match percent_arg_spec(value@) {
            Some(v) => r == Ok::<u8, String>(v),
            None => r matches Err(m) && m@ == percent_arg_error(),
        },
{
    match parse_unsigned(&char_vec(value), 10, 255) {
        Some(v) => if v <= 100 {
            Ok(v as u8)
        } else {
            Err(owned("Percent must be a number from 0 to 100."))
        },
        None => Err(owned("Percent must be a number from 0 to 100.")),
    }
}

/// A mute argument, in any ASCII case.
pub open spec fn on_off_arg_spec(value: Seq<char>) -> Option<bool> {
    let l = lower_seq(value);
    if l == "on"@ || l == "true"@ || l == "1"@ || l == "muted"@ {
        Some(true)
    } else if l == "off"@ || l == "unmuted"@ || l == "live"@ || l == "false"@ || l == "0"@ {
        Some(false)
    } else {
        None
    }
}

pub fn parse_on_off_arg(value: &str) -> (r: Result<bool, String>)
    ensures
        match on_off_arg_spec(value@) {
            Some(b) => r == Ok::<bool, String>(b),
            None => r matches Err(m) && m@ == on_off_arg_error(),
        },
{
    let l = lower_vec(&char_vec(value));
    if chars_eq_str(&l, "on") || chars_eq_str(&l, "true") || chars_eq_str(&l, "1") || chars_eq_str(
        &l,
        "muted",
    ) {
        Ok(true)
    } else if chars_eq_str(&l, "off") || chars_eq_str(&l, "unmuted") || chars_eq_str(&l, "live")
        || chars_eq_str(&l, "false") || chars_eq_str(&l, "0") {
        Ok(false)
    } else {
        Err(owned("Mute value must be on/off or true/false."))
    }
}

/// Endpoint states as the Windows audio API numbers them.
pub const DEVICE_STATE_ACTIVE: u32 = 0x1;

pub const DEVICE_STATE_DISABLED: u32 = 0x2;

pub const DEVICE_STATE_NOTPRESENT: u32 = 0x4;

pub const DEVICE_STATE_UNPLUGGED: u32 = 0x8;

pub open spec fn state_name_spec(state: u32) -> Seq<char> {
    if state == DEVICE_STATE_ACTIVE {
        "active"@
    } else if state == DEVICE_STATE_DISABLED {
        "disabled"@
    } else if state == DEVICE_STATE_NOTPRESENT {
        "not_present"@
    } else if state == DEVICE_STATE_UNPLUGGED {
        "unplugged"@
    } else {
        "unknown_"@ + decimal_seq(state as nat)
    }
}

/// The name of an endpoint state.
pub fn state_name(state: u32) -> (r: String)
    ensures
        r@ == state_name_spec(state),
{
    if state == DEVICE_STATE_ACTIVE {
        owned("active")
    } else if state == DEVICE_STATE_DISABLED {
        owned("disabled")
    } else if state == DEVICE_STATE_NOTPRESENT {
        owned("not_present")
    } else if state == DEVICE_STATE_UNPLUGGED {
        owned("unplugged")
    } else {
        concat2("unknown_", decimal_string(state as u64).as_str())
    }
}

/// Whether an endpoint's friendly name looks like the microphone's.
pub open spec fn hyperx_name_spec(name: Seq<char>) -> bool {
    let l = lower_seq(name);
    has_infix(l, "hyperx"@) || has_infix(l, "quadcast"@) || has_infix(l, "kingston"@)
}

pub fn is_expected_hyperx_device_name(name: &str) -> (r: bool)
    ensures
        r == hyperx_name_spec(name@),
{
    let l = lower_vec(&char_vec(name));
    contains_vec(&l, &char_vec("hyperx")) || contains_vec(&l, &char_vec("quadcast")) || contains_vec(
        &l,
        &char_vec("kingston"),
    )
}

// ---------------------------------------------------------------------------
// JSON string escaping
// ---------------------------------------------------------------------------

/// `char::is_control`: the Unicode `Cc` category.
pub open spec fn is_control(c: char) -> bool {
    (c as u32) <= 0x1f || (0x7f <= (c as u32) && (c as u32) <= 0x9f)
}

pub open spec fn hex_lower(n: nat) -> char {
    if n < 10 {
        (48 + n) as char
    } else {
        (87 + n) as char
    }
}

/// How one character appears inside a JSON string.
pub open spec fn escape_char(c: char) -> Seq<char> {
    if c == '"' {
        seq!['\\', '"']
    } else if c == '\\' {
        seq!['\\', '\\']
    } else if c == '\n' {
        seq!['\\', 'n']
    } else if c == '\r' {
        seq!['\\', 'r']
    } else if c == '\t' {
        seq!['\\', 't']
    } else if is_control(c) {
        let v = c as u32 as nat;
        seq!['\\', 'u', '0', '0', hex_lower(v / 16), hex_lower(v % 16)]
    } else {
        seq![c]
    }
}

pub open spec fn escape_seq(s: Seq<char>) -> Seq<char>
    decreases s.len(),
{
    if s.len() == 0 {
        Seq::empty()
    } else {
        escape_seq(s.drop_last()) + escape_char(s.last())
    }
}

fn hex_lower_char(n: u32) -> (r: char)
    requires
        n < 16,
    ensures
        r == hex_lower(n as nat),
{
    if n < 10 {
        ((48 + n) as u8) as char
    } else {
        ((87 + n) as u8) as char
    }
}

/// The text of `value` escaped for a JSON string literal.
pub fn json_escape(value: &str) -> (r: String)
    ensures
        r@ == escape_seq(value@),
{
    let v = char_vec(value);
    let mut r = String::new();
    let mut i: usize = 0;
    while i < v.len()
        invariant
            i <= v@.len(),
            r@ == escape_seq(v@.subrange(0, i as int)),
        decreases v@.len() - i,
    {
        let c = v[i];
        let ghost before = r@;
        if c == '"' {
            push_char(&mut r, '\\');
            push_char(&mut r, '"');
        } else if c == '\\' {
            push_char(&mut r, '\\');
            push_char(&mut r, '\\');
        } else if c == '\n' {
            push_char(&mut r, '\\');
            push_char(&mut r, 'n');
        } else if c == '\r' {
            push_char(&mut r, '\\');
            push_char(&mut r, 'r');
        } else if c == '\t' {
            push_char(&mut r, '\\');
            push_char(&mut r, 't');
        } else if (c as u32) <= 0x1f || (0x7f <= (c as u32) && (c as u32) <= 0x9f) {
            let code = c as u32;
            push_char(&mut r, '\\');
            push_char(&mut r, 'u');
            push_char(&mut r, '0');
            push_char(&mut r, '0');
            push_char(&mut r, hex_lower_char(code / 16));
            push_char(&mut r, hex_lower_char(code % 16));
        } else {
            push_char(&mut r, c);
        }
        assert(r@ =~= before + escape_char(c));
        assert(v@.subrange(0, i + 1).drop_last() =~= v@.subrange(0, i as int));
        i = i + 1;
    }
    assert(v@.subrange(0, v@.len() as int) =~= v@);
    r
}

/// Escaped text holds no bare quote: every `"` in it is preceded by a
/// backslash, so the escaped text cannot end a JSON string early.
pub proof fn law_escaped_quotes_are_preceded_by_backslash(s: Seq<char>)
    ensures
        forall|i: int|
            0 <= i < escape_seq(s).len() && #[trigger] escape_seq(s)[i] == '"' ==> i > 0
                && escape_seq(s)[i - 1] == '\\',
        forall|i: int| 0 <= i < escape_seq(s).len() ==> !is_control(#[trigger] escape_seq(s)[i]),
    decreases s.len(),
{
    if s.len() > 0 {
        law_escaped_quotes_are_preceded_by_backslash(s.drop_last());
        let head = escape_seq(s.drop_last());
        let tail = escape_char(s.last());
        let e = escape_seq(s);
        assert(e == head + tail);
        let c = s.last();
        if is_control(c) && c != '\n' && c != '\r' && c != '\t' {
            let v = c as u32 as nat;
            assert(v / 16 < 16 && v % 16 < 16);
            assert(!is_control(hex_lower(v / 16)));
            assert(!is_control(hex_lower(v % 16)));
        }
        assert forall|i: int| 0 <= i < e.len() && #[trigger] e[i] == '"' implies i > 0 && e[i - 1]
            == '\\' by {
            if i >= head.len() {
                assert(tail[i - head.len()] == '"');
                assert(e[i - 1] == tail[i - head.len() - 1]);
            } else {
                assert(head[i] == '"');
                assert(e[i - 1] == head[i - 1]);
            }
        }
        assert forall|i: int| 0 <= i < e.len() implies !is_control(#[trigger] e[i]) by {
            if i >= head.len() {
                assert(e[i] == tail[i - head.len()]);
            } else {
                assert(e[i] == head[i]);
            }
        }
    }
}

} // verus!
