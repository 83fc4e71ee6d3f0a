use hyperx_mic_lite::hid::{
    build_display_header_packet, build_save_sentinel_packet, decode_hid_event, decode_hid_report,
    hex_bytes, hid_event_payload, is_supported_lighting_device, lighting_device_from,
    pattern_description, save_lighting_sequence, select_lighting_device, LightingCandidate,
};
use hyperx_mic_lite::lighting::{
    apply_light_target, blink_frames, build_frame_packet, build_program_frames, color_to_hex,
    combine_zone_frames, cycle_frames, effect_frame_delay, lerp_color, live_mute_lighting_color,
    normalized_colors, parse_rgb_hex, scale_color, solid_frame, stream_lighting_program,
    transition_steps, write_solid_lighting_once, LightingError, LightingProgram,
};
use hyperx_mic_lite::model::{Effect, HidEvent, LightTarget, PolarPattern};

#[test]
fn hid_reports_decode_with_or_without_report_id() {
    assert_eq!(decode_hid_event(&[0x05, 0x10, 0x01]), Some(HidEvent::Mute(true)));
    assert_eq!(decode_hid_event(&[0x05, 0x10, 0x00, 0x99]), Some(HidEvent::Mute(false)));
    assert_eq!(
        decode_hid_event(&[0x00, 0x05, 0x11, 0x02]),
        Some(HidEvent::Pattern(PolarPattern::Cardioid))
    );
    assert_eq!(
        decode_hid_event(&[0x05, 0x11, 0x09]),
        Some(HidEvent::Pattern(PolarPattern::Unknown(9)))
    );
    assert_eq!(decode_hid_event(&[0x05, 0x12, 0x01]), None);
    assert_eq!(decode_hid_event(&[0x05, 0x10]), None);
    assert_eq!(decode_hid_event(&[]), None);
    assert_eq!(hid_event_payload(&[0x07, 0x05, 0x11]), Some(&[0x05u8, 0x11][..]));
}

#[test]
fn hid_reports_describe_themselves() {
    assert_eq!(decode_hid_report(&[0x05, 0x10, 0x01]).as_deref(), Some("mute=live/unmuted"));
    assert_eq!(decode_hid_report(&[0x05, 0x10, 0x00]).as_deref(), Some("mute=muted"));
    assert_eq!(decode_hid_report(&[0x05, 0x11, 0x03]).as_deref(), Some("pattern=Bidirectional"));
    assert_eq!(decode_hid_report(&[0x01]), None);
    assert_eq!(
        pattern_description(PolarPattern::Omni),
        "Captures sound evenly from around the microphone."
    );
}

#[test]
fn hex_bytes_are_space_separated() {
    assert_eq!(hex_bytes(&[0x01, 0xab, 0x00]), "01 ab 00");
    assert_eq!(hex_bytes(&[]), "");
}

fn candidate(vendor_id: u16, product_id: u16, interface_number: i32, usage_page: u16, usage: u16) -> LightingCandidate {
    LightingCandidate { vendor_id, product_id, interface_number, usage_page, usage }
}

#[test]
fn lighting_interface_selection_prefers_the_rgb_collection() {
    let devices = [
        candidate(0x1234, 0x0001, 0, 0xff90, 0xff00),
        candidate(0x0951, 0x171f, 1, 0x000c, 0x0001),
        candidate(0x0951, 0x171f, 0, 0xff90, 0xff00),
        candidate(0x03f0, 0x0f8b, 0, 0xff00, 0x0001),
    ];
    assert!(!is_supported_lighting_device(&devices[0]));
    assert_eq!(select_lighting_device(&devices), Some(2));
    let ties = [candidate(0x03f0, 0x028c, 2, 0x0001, 1), candidate(0x03f0, 0x048c, 2, 0x0001, 1)];
    assert_eq!(select_lighting_device(&ties), Some(1));
    assert_eq!(select_lighting_device(&devices[..1]), None);
    let device = lighting_device_from(&devices[2], None, Some("QuadCast 2"));
    assert_eq!(device.manufacturer, "HyperX");
    assert_eq!(device.product, "QuadCast 2");
}

#[test]
fn packets_have_their_fixed_layout() {
    let header = build_display_header_packet();
    assert_eq!(header[0], 0x04);
    assert_eq!(header[1], 0xf2);
    assert_eq!(header[8], 0x01);
    assert_eq!(header.iter().filter(|b| **b != 0).count(), 3);
    let sentinel = build_save_sentinel_packet();
    assert_eq!(&sentinel[59..], &[0x28, 0x01, 0x00, 0xaa, 0x55]);
    let sequence = save_lighting_sequence();
    assert_eq!(sequence.len(), 5);
    assert_eq!(sequence[0].0[1], 0x53);
    assert!(!sequence[0].1);
    assert_eq!(sequence[2].0[1], 0x23);
    assert!(sequence[4].1);
}

#[test]
fn frame_packet_carries_every_cell() {
    let packet = build_frame_packet(solid_frame([1, 2, 3]));
    for cell in 0..16 {
        assert_eq!(&packet[cell * 4..cell * 4 + 4], &[0x81, 1, 2, 3]);
    }
}

#[test]
fn colour_arithmetic() {
    assert_eq!(scale_color([255, 128, 10], 50), [127, 64, 5]);
    assert_eq!(scale_color([255, 0, 0], 200), [254, 0, 0]);
    assert_eq!(lerp_color([0, 0, 0], [255, 255, 255], 1, 3), [128, 128, 128]);
    assert_eq!(lerp_color([200, 10, 0], [0, 10, 255], 0, 8), [200, 10, 0]);
    assert_eq!(lerp_color([200, 10, 0], [0, 10, 255], 7, 8), [0, 10, 255]);
    assert_eq!(lerp_color([10, 20, 30], [40, 50, 60], 0, 1), [10, 20, 30]);
    assert_eq!(transition_steps(75, 8, 48), 18);
    assert_eq!(transition_steps(100, 8, 48), 8);
    assert_eq!(transition_steps(0, 8, 48), 48);
    assert_eq!(transition_steps(255, 8, 48), 8);
    assert_eq!(effect_frame_delay(75), 65);
    assert_eq!(effect_frame_delay(0), 140);
    assert_eq!(effect_frame_delay(200), 24);
    assert_eq!(live_mute_lighting_color(true), [0, 255, 70]);
    assert_eq!(live_mute_lighting_color(false), [255, 0, 28]);
}

#[test]
fn targets_and_zones() {
    let mut frame = solid_frame([9, 9, 9]);
    frame[1] = [7, 7, 7];
    let top = apply_light_target(frame, LightTarget::Top);
    assert_eq!(top[0], [9, 9, 9]);
    assert!(top[1..].iter().all(|c| *c == [0, 0, 0]));
    let bottom = apply_light_target(frame, LightTarget::Bottom);
    assert_eq!(bottom[0], [0, 0, 0]);
    assert_eq!(bottom[1], [7, 7, 7]);
    assert!(bottom[2..].iter().all(|c| *c == [0, 0, 0]));
    assert_eq!(apply_light_target(frame, LightTarget::All), frame);
    let combined = combine_zone_frames(solid_frame([1, 1, 1]), solid_frame([2, 2, 2]));
    assert_eq!(combined[0], [1, 1, 1]);
    assert_eq!(combined[1], [2, 2, 2]);
    assert!(combined[2..].iter().all(|c| *c == [0, 0, 0]));
}

#[test]
fn rgb_text_round_trip() {
    assert_eq!(parse_rgb_hex("#FF0066").ok(), Some([255, 0, 102]));
    assert_eq!(parse_rgb_hex("  ff0066 ").ok(), Some([255, 0, 102]));
    assert_eq!(parse_rgb_hex("##00a2ff").ok(), Some([0, 162, 255]));
    match parse_rgb_hex("ff006") {
        Err(LightingError::Invalid(m)) => assert_eq!(m, "Color must be six hex digits, for example ff0066."),
        _ => panic!("short colour must fail"),
    }
    match parse_rgb_hex("gg0066") {
        Err(LightingError::Invalid(m)) => assert_eq!(m, "Color must contain only hex digits."),
        _ => panic!("non-hex colour must fail"),
    }
    assert_eq!(color_to_hex([255, 0, 102]), "#ff0066");
    let c = [18, 52, 86];
    assert_eq!(parse_rgb_hex(&color_to_hex(c)).ok(), Some(c));
    assert_eq!(LightingError::NoDevice.message(), "No supported QuadCast S lighting HID interface detected.");
}

#[test]
fn solid_write_scales_the_colour() {
    let (header, frame) = write_solid_lighting_once([200, 100, 50], 50);
    assert_eq!(header, build_display_header_packet());
    assert_eq!(&frame[0..4], &[0x81, 100, 50, 25]);
    assert_eq!(&frame[60..64], &[0x81, 100, 50, 25]);
}

fn program(effect: Effect, colors: Vec<[u8; 3]>) -> LightingProgram {
    LightingProgram {
        effect,
        target: LightTarget::All,
        split_layers: false,
        top_effect: Effect::Solid,
        bottom_effect: Effect::Blink,
        colors,
        speed: 100,
        brightness: 100,
    }
}

#[test]
fn frames_of_effects() {
    let cycle = cycle_frames(&[[255, 0, 0], [0, 0, 255]], 100, false);
    assert_eq!(cycle.len(), 16);
    assert_eq!(cycle[0], solid_frame([255, 0, 0]));
    assert_eq!(cycle[8], solid_frame([0, 0, 255]));
    let blink = blink_frames(&[[10, 20, 30]], 100);
    assert!(!blink.is_empty());
    assert_eq!(normalized_colors(&program(Effect::Solid, vec![])), vec![[0, 255, 0]]);
    let mut dim = program(Effect::Solid, vec![[200, 100, 0]]);
    dim.brightness = 50;
    assert_eq!(normalized_colors(&dim), vec![[100, 50, 0]]);
    assert!(build_program_frames(&program(Effect::Wave, vec![[1, 2, 3]])).is_ok());
}

#[test]
fn stream_cycles_through_its_frames() {
    let mut stream = stream_lighting_program(&program(Effect::Solid, vec![[10, 20, 30]])).ok().unwrap();
    assert_eq!(stream.frame_delay_ms, 40);
    assert!(!stream.vu_meter);
    let first = stream.next_frame();
    assert_eq!(first, solid_frame([10, 20, 30]));
    for _ in 0..5 {
        assert_eq!(stream.next_frame(), first);
    }
    let vu = stream_lighting_program(&program(Effect::VuMeter, vec![[1, 1, 1]])).ok().unwrap();
    assert!(vu.vu_meter);
    let mut split = program(Effect::Solid, vec![[50, 60, 70]]);
    split.split_layers = true;
    let mut stream = stream_lighting_program(&split).ok().unwrap();
    let frame = stream.next_frame();
    assert_eq!(frame[0], [50, 60, 70]);
    assert!(frame[2..].iter().all(|c| *c == [0, 0, 0]));
}

/// Interpolation as single-precision arithmetic computes it.
fn lerp_in_f32(start: [u8; 3], end: [u8; 3], step: usize, steps: usize) -> [u8; 3] {
    let denominator = steps.saturating_sub(1).max(1) as f32;
    let t = step as f32 / denominator;
    [
        (start[0] as f32 + (end[0] as f32 - start[0] as f32) * t).round() as u8,
        (start[1] as f32 + (end[1] as f32 - start[1] as f32) * t).round() as u8,
        (start[2] as f32 + (end[2] as f32 - start[2] as f32) * t).round() as u8,
    ]
}

#[test]
fn interpolation_rounds_as_single_precision() {
    // 210 * 7 / 12 is 122.5 exactly, but in f32 the product falls just short.
    assert_eq!(lerp_color([0, 0, 0], [210, 0, 0], 7, 13), [122, 0, 0]);
    assert_eq!(lerp_color([0, 0, 0], [210, 0, 0], 7, 13), lerp_in_f32([0, 0, 0], [210, 0, 0], 7, 13));
    for a in (0..=255u16).step_by(15) {
        for b in 0..=255u16 {
            let start = [a as u8, b as u8, 255 - a as u8];
            let end = [b as u8, a as u8, (b / 2) as u8];
            for steps in 1..=24usize {
                for step in 0..=steps {
                    assert_eq!(
                        lerp_color(start, end, step, steps),
                        lerp_in_f32(start, end, step, steps),
                        "{start:?} -> {end:?}, step {step} of {steps}"
                    );
                }
            }
        }
    }
    let large = [
        (1usize << 24, 1usize << 24),
        ((1usize << 24) + 1, (1usize << 25) + 3),
        (1_000_000_007, 3),
        (5, 1_000_000_007),
        (usize::MAX, usize::MAX),
        (usize::MAX / 3, usize::MAX),
        (1, usize::MAX),
        (usize::MAX, 2),
    ];
    for (step, steps) in large {
        for (start, end) in [([0, 17, 255], [255, 200, 0]), ([128, 3, 77], [129, 250, 76])] {
            assert_eq!(
                lerp_color(start, end, step, steps),
                lerp_in_f32(start, end, step, steps),
                "{start:?} -> {end:?}, step {step} of {steps}"
            );
        }
    }
}
