//! The lighting commands of the command line: their flags and arguments,
//! the program they stream, and the log record of each HID write.
use vstd::prelude::*;

use crate::config::LightingConfig;
use crate::hid::{hex_bytes, hex_bytes_seq};
use crate::lighting::{parse_rgb_hex, parse_rgb_spec, LightingProgram};
use crate::model::{
    effect_from_config, target_from_config, Effect, LightTarget,
};
use crate::config::strings_view;
use crate::text::{
    char_vec, chars_eq_str, lower_seq, lower_vec, owned, parse_unsigned, parse_unsigned_spec,
    str_eq,
};

verus! {

broadcast use vstd::string::group_string_axioms;

/// The flags that turn on logging of every HID packet.
pub open spec fn is_packet_log_flag(a: Seq<char>) -> bool {
    a == "--packet-log"@ || a == "--verbose-hid"@
}

/// The arguments that are not packet-log flags, in order.
pub open spec fn without_packet_log_flags(args: Seq<Seq<char>>) -> Seq<Seq<char>>
    decreases args.len(),
{
    if args.len() == 0 {
        Seq::empty()
    } else if is_packet_log_flag(args.last()) {
        without_packet_log_flags(args.drop_last())
    } else {
        without_packet_log_flags(args.drop_last()).push(args.last())
    }
}

pub open spec fn has_packet_log_flag(args: Seq<Seq<char>>) -> bool {
    exists|i: int| 0 <= i < args.len() && is_packet_log_flag(#[trigger] args[i])
}

pub open spec fn args_view(args: Seq<String>) -> Seq<Seq<char>> {
    args.map_values(|a: String| a@)
}

pub open spec fn strs_view(args: Seq<&str>) -> Seq<Seq<char>> {
    args.map_values(|a: &str| a@)
}

/// Separates the packet-log flags from the other arguments.
pub fn split_packet_log_flag(args: &[String]) -> (r: (Vec<&str>, bool))
    ensures
        strs_view(r.0@) == without_packet_log_flags(args_view(args@)),
        r.1 == has_packet_log_flag(args_view(args@)),
{
    let ghost all = args_view(args@);
    let mut packet_log = false;
    let mut filtered: Vec<&str> = Vec::new();
    let mut i: usize = 0;
    while i < args.len()
        invariant
            i <= args@.len(),
            all == args_view(args@),
            strs_view(filtered@) == without_packet_log_flags(all.subrange(0, i as int)),
            packet_log == has_packet_log_flag(all.subrange(0, i as int)),
        decreases args@.len() - i,
    {
        let arg = args[i].as_str();
        let ghost prefix = all.subrange(0, i + 1);
        assert(prefix.drop_last() =~= all.subrange(0, i as int));
        assert(prefix.last() == arg@);
        proof {
            let old_prefix = all.subrange(0, i as int);
            if has_packet_log_flag(old_prefix) {
                let j = choose|j: int| 0 <= j < i && is_packet_log_flag(#[trigger] old_prefix[j]);
                assert(prefix[j] == old_prefix[j]);
            }
            if has_packet_log_flag(prefix) && !is_packet_log_flag(prefix.last()) {
                let j = choose|j: int| 0 <= j < i + 1 && is_packet_log_flag(#[trigger] prefix[j]);
                assert(j < i);
                assert(old_prefix[j] == prefix[j]);
            }
            if is_packet_log_flag(prefix.last()) {
                assert(is_packet_log_flag(prefix[i as int]));
            }
        }
        if str_eq(arg, "--packet-log") || str_eq(arg, "--verbose-hid") {
            packet_log = true;
        } else {
            let ghost before = filtered@;
            filtered.push(arg);
            assert(strs_view(filtered@) =~= strs_view(before).push(arg@));
        }
        i = i + 1;
    }
    assert(all.subrange(0, args@.len() as int) =~= all);
    (filtered, packet_log)
}

/// How long a lighting stream runs.
#[derive(Clone, Copy, PartialEq, Eq, Debug, Structural)]
pub enum StreamDuration {
    /// A number of seconds.
    Timed(u64),
    Forever,
}

/// Whether a lighting stream sends another frame: not once it has been
/// cancelled, and for a timed stream only while less time than its
/// duration has passed (`elapsed_ms` is the time since the start in whole
/// milliseconds).
pub fn continue_stream(duration: StreamDuration, elapsed_ms: u64, cancelled: bool) -> (r: bool)
    ensures
        r == (!cancelled && match duration {
            StreamDuration::Timed(seconds) => elapsed_ms < seconds * 1000,
            StreamDuration::Forever => true,
        }),
{
    if cancelled {
        return false;
    }
    match duration {
        StreamDuration::Timed(seconds) => elapsed_ms / 1000 < seconds,
        StreamDuration::Forever => true,
    }
}

pub open spec fn clamp_spec(v: nat, lo: nat, hi: nat) -> nat {
    if v < lo {
        lo
    } else if v > hi {
        hi
    } else {
        v
    }
}

pub open spec fn stream_duration_spec(value: Seq<char>) -> Result<StreamDuration, Seq<char>> {
    if lower_seq(value) == "forever"@ {
        Ok(StreamDuration::Forever)
    } else {
        match parse_unsigned_spec(value, 10, u64::MAX as nat) {
            Some(v) => Ok(StreamDuration::Timed(clamp_spec(v, 1, 120) as u64)),
            None => Err("Duration must be seconds or 'forever'."@),
        }
    }
}

/// A stream duration argument: `forever` in any ASCII case, or a whole
/// number of seconds held to 1..120.
pub fn parse_stream_duration(value: &str) -> (r: Result<StreamDuration, String>)
    ensures
        match stream_duration_spec(value@) {
            Ok(d) => r == Ok::<StreamDuration, String>(d),
            Err(m) => r matches Err(e) && e@ == m,
        },
{
    if chars_eq_str(&lower_vec(&char_vec(value)), "forever") {
        return Ok(StreamDuration::Forever);
    }
    match parse_unsigned(&char_vec(value), 10, u64::MAX) {
        Some(v) => {
            let s = if v < 1 {
                1
            } else if v > 120 {
                120
            } else {
                v
            };
            Ok(StreamDuration::Timed(s))
        },
        None => Err(owned("Duration must be seconds or 'forever'.")),
    }
}

pub open spec fn solid_seconds_spec(value: Option<Seq<char>>) -> Result<u64, Seq<char>> {
    match value {
        None => Ok(3),
        Some(v) => match parse_unsigned_spec(v, 10, u64::MAX as nat) {
            Some(n) => Ok(clamp_spec(n, 1, 60) as u64),
            None => Err("Duration must be a whole number of seconds."@),
        },
    }
}

/// The optional seconds argument of the solid-colour command: 3 when it is
/// missing, otherwise a whole number held to 1..60.
pub fn solid_seconds_arg(value: Option<&str>) -> (r: Result<u64, String>)
    ensures
        match solid_seconds_spec(
            match value {
                Some(v) => Some(v@),
                None => None,
            },
        ) {
            Ok(n) => r == Ok::<u64, String>(n),
            Err(m) => r matches Err(e) && e@ == m,
        },
{
    match value {
        None => Ok(3),
        Some(v) => match parse_unsigned(&char_vec(v), 10, u64::MAX) {
            Some(n) => Ok(
                if n < 1 {
                    1
                } else if n > 60 {
                    60
                } else {
                    n
                },
            ),
            None => Err(owned("Duration must be a whole number of seconds.")),
        },
    }
}

/// The program the solid-colour command streams: the colour on the whole
/// microphone at full brightness.
pub fn solid_program(color: [u8; 3]) -> (r: LightingProgram)
    ensures
        r.effect == Effect::Solid,
        r.target == LightTarget::All,
        !r.split_layers,
        r.top_effect == Effect::Solid,
        r.bottom_effect == Effect::Solid,
        r.colors@ == seq![color],
        r.speed == 75,
        r.brightness == 100,
{
    let mut colors: Vec<[u8; 3]> = Vec::new();
    colors.push(color);
    LightingProgram {
        effect: Effect::Solid,
        target: LightTarget::All,
        split_layers: false,
        top_effect: Effect::Solid,
        bottom_effect: Effect::Solid,
        colors,
        speed: 75,
        brightness: 100,
    }
}

/// The configured colours that parse, in order.
pub open spec fn parsed_colors(colors: Seq<Seq<char>>) -> Seq<Seq<u8>>
    decreases colors.len(),
{
    if colors.len() == 0 {
        Seq::empty()
    } else {
        match parse_rgb_spec(colors.last()) {
            Ok(c) => parsed_colors(colors.drop_last()).push(c),
            Err(_) => parsed_colors(colors.drop_last()),
        }
    }
}

pub open spec fn rgb_view(colors: Seq<[u8; 3]>) -> Seq<Seq<u8>> {
    colors.map_values(|c: [u8; 3]| c@)
}

/// The colours of a palette that parse, in order.
pub fn parse_palette(colors: &Vec<String>) -> (r: Vec<[u8; 3]>)
    ensures
        rgb_view(r@) == parsed_colors(strings_view(colors@)),
{
    let ghost all = strings_view(colors@);
    let mut out: Vec<[u8; 3]> = Vec::new();
    let mut i: usize = 0;
    while i < colors.len()
        invariant
            i <= colors@.len(),
            all == strings_view(colors@),
            rgb_view(out@) == parsed_colors(all.subrange(0, i as int)),
        decreases colors@.len() - i,
    {
        let ghost prefix = all.subrange(0, i + 1);
        assert(prefix.drop_last() =~= all.subrange(0, i as int));
        assert(prefix.last() == colors@[i as int]@);
        match parse_rgb_hex(colors[i].as_str()) {
            Ok(c) => {
                let ghost before = out@;
                out.push(c);
                assert(rgb_view(out@) =~= rgb_view(before).push(c@));
            },
            Err(_) => {},
        }
        i = i + 1;
    }
    assert(all.subrange(0, colors@.len() as int) =~= all);
    out
}

/// The program the effect command streams with `effect`: target, layers,
/// speed and brightness from the configuration, its colours that parse
/// (pure green when none does).
pub fn program_from_config(effect: Effect, lighting: &LightingConfig) -> (r: LightingProgram)
    ensures
        r.effect == effect,
        r.target == target_from_config(lighting.target@),
        r.split_layers == lighting.split_layers,
        r.top_effect == effect_from_config(lighting.top_effect@),
        r.bottom_effect == effect_from_config(lighting.bottom_effect@),
        rgb_view(r.colors@) == (if parsed_colors(strings_view(lighting.colors@)).len() == 0 {
            seq![seq![0u8, 255u8, 0u8]]
        } else {
            parsed_colors(strings_view(lighting.colors@))
        }),
        r.speed == lighting.speed,
        r.brightness == lighting.brightness,
{
    let mut colors = parse_palette(&lighting.colors);
    if colors.len() == 0 {
        colors.push([0, 255, 0]);
        assert(rgb_view(colors@) =~= seq![seq![0u8, 255u8, 0u8]]);
    }
    LightingProgram {
        effect,
        target: crate::model::LightTarget::from_config(lighting.target.as_str()),
        split_layers: lighting.split_layers,
        top_effect: Effect::from_config(lighting.top_effect.as_str()),
        bottom_effect: Effect::from_config(lighting.bottom_effect.as_str()),
        colors,
        speed: lighting.speed,
        brightness: lighting.brightness,
    }
}

/// The fields of the log record of one HID packet write, or `None` when
/// packet logging is off.
pub fn log_hid_packet_attempt(
    enabled: bool,
    transport: &str,
    success: bool,
    packet: &[u8; 64],
    error: Option<String>,
) -> (r: Option<Vec<(String, String)>>)
    ensures
        r is Some <==> enabled,
        r matches Some(fields) ==> {
            &&& fields@.len() == (if error is Some {
                4int
            } else {
                3int
            })
            &&& fields@[0].0@ == "transport"@ && fields@[0].1@ == transport@
            &&& fields@[1].0@ == "success"@ && fields@[1].1@ == (if success {
                "true"@
            } else {
                "false"@
            })
            &&& fields@[2].0@ == "packet"@ && fields@[2].1@ == hex_bytes_seq(packet@)
            &&& error matches Some(e) ==> fields@[3].0@ == "error"@ && fields@[3].1 == e
        },
{
    if !enabled {
        return None;
    }
    let mut fields: Vec<(String, String)> = Vec::new();
    fields.push((owned("transport"), owned(transport)));
    fields.push(
        (
            owned("success"),
            if success {
                owned("true")
            } else {
                owned("false")
            },
        ),
    );
    fields.push((owned("packet"), hex_bytes(packet)));
    match error {
        Some(e) => {
            fields.push((owned("error"), e));
        },
        None => {},
    }
    Some(fields)
}

} // verus!
