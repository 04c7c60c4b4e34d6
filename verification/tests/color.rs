use raytracer::color::{channel_level, ratio, to_pixel_color, MAX_RATIO, OPAQUE};

fn by_hardware(channel: f32) -> u8 {
    (channel.clamp(0.0, 1.0) * 255.0) as u8
}

#[test]
fn color_constants_are_the_numbers_they_name() {
    assert_eq!(MAX_RATIO, 1.001f32.to_bits());
    assert_eq!(OPAQUE, 255);
}

#[test]
fn channel_is_cut_off_scaled_and_truncated() {
    let level = |channel: f32| channel_level(channel.to_bits());
    assert_eq!(level(0.0), 0);
    assert_eq!(level(1.0), 255);
    assert_eq!(level(0.5), 127);
    assert_eq!(level(0.25), 63);
    assert_eq!(level(0.75), 191);
    assert_eq!(level(0.999), 254);
    assert_eq!(level(0.004), 1);
    assert_eq!(level(0.0039), 0);
    assert_eq!(level(1.0e-20), 0);
    assert_eq!(level(f32::from_bits(1)), 0);
}

#[test]
fn channel_out_of_range_is_clamped() {
    let level = |channel: f32| channel_level(channel.to_bits());
    assert_eq!(level(-0.0), 0);
    assert_eq!(level(-0.5), 0);
    assert_eq!(level(-1.0e30), 0);
    assert_eq!(level(f32::NEG_INFINITY), 0);
    assert_eq!(level(1.000_1), 255);
    assert_eq!(level(37.5), 255);
    assert_eq!(level(f32::INFINITY), 255);
    assert_eq!(level(f32::NAN), 0);
    assert_eq!(level(f32::from_bits(0xffc0_0000)), 0);
}

#[test]
fn channel_level_agrees_with_the_hardware_near_every_step() {
    for step in 1..=255u32 {
        let at_step = (step as f32 / 255.0).to_bits();
        for bits in (at_step - 8)..=(at_step + 8) {
            let channel = f32::from_bits(bits);
            assert_eq!(channel_level(bits), by_hardware(channel), "{}", channel);
        }
    }
}

#[test]
fn channel_level_agrees_with_the_hardware_across_the_range() {
    let mut bits = 0u32;
    while bits < 0x4000_0000 {
        let channel = f32::from_bits(bits);
        assert_eq!(channel_level(bits), by_hardware(channel), "{}", channel);
        assert_eq!(channel_level(bits | 0x8000_0000), by_hardware(-channel), "{}", -channel);
        bits += 7919;
    }
}

#[test]
fn channel_level_never_falls_as_the_channel_grows() {
    let mut last = 0;
    let mut bits = 0x3b00_0000u32;
    while bits <= 0x3f80_0000 {
        let level = channel_level(bits);
        assert!(level >= last);
        last = level;
        bits += 1021;
    }
    assert_eq!(last, 254);
    assert_eq!(channel_level(0x3f80_0000), 255);
}

#[test]
fn pixel_is_red_green_blue_and_opaque() {
    let color = [1.0f32.to_bits(), 0.5f32.to_bits(), 0.0f32.to_bits()];
    assert_eq!(to_pixel_color(color), [255, 127, 0, 255]);
    let color = [7.0f32.to_bits(), (-7.0f32).to_bits(), f32::NAN.to_bits()];
    assert_eq!(to_pixel_color(color), [255, 0, 0, 255]);
    let color = [0.2f32.to_bits(), 0.4f32.to_bits(), 0.6f32.to_bits()];
    assert_eq!(to_pixel_color(color), [51, 102, 153, 255]);
}

#[test]
fn ratio_is_taken_from_zero_to_just_above_one() {
    let bits = |x: f32| x.to_bits();
    assert_eq!(ratio(bits(0.0)), Some(bits(0.0)));
    assert_eq!(ratio(bits(0.3)), Some(bits(0.3)));
    assert_eq!(ratio(bits(1.0)), Some(bits(1.0)));
    assert_eq!(ratio(bits(1.000_5)), Some(bits(1.0)));
    assert_eq!(ratio(MAX_RATIO), Some(bits(1.0)));
    assert_eq!(ratio(MAX_RATIO + 1), None);
    assert_eq!(ratio(bits(2.0)), None);
    assert_eq!(ratio(bits(-0.001)), None);
    assert_eq!(ratio(bits(f32::NAN)), None);
}

#[test]
fn ratio_agrees_with_the_hardware() {
    for x in [-1.0f32, -0.0, 0.0, 0.1, 0.999, 1.0, 1.000_9, 1.001, 1.001_1, 5.0, f32::NAN] {
        let accepted = x >= 0.0 && x <= 1.001;
        let found = ratio(x.to_bits());
        assert_eq!(found.is_some(), accepted, "{}", x);
        if let Some(cut) = found {
            assert_eq!(cut, x.clamp(0.0, 1.0).to_bits(), "{}", x);
        }
    }
}
