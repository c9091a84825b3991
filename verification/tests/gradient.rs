use bevy_hanabi::gradient::GradientError;
use bevy_hanabi::Fixed;
use bevy_hanabi::Gradient;
use bevy_hanabi::Vector4;

fn fx(micros: i64) -> Fixed {
    Fixed::from_micros(micros)
}

fn v4(x: i64, y: i64, z: i64, w: i64) -> Vector4 {
    Vector4::new(fx(x), fx(y), fx(z), fx(w))
}

fn ratios(g: &Gradient) -> Vec<i64> {
    g.keys().iter().map(|k| k.ratio.micros()).collect()
}

#[test]
fn new_gradient_has_no_keys() {
    let g = Gradient::new();
    assert_eq!(g.len(), 0);
    assert!(g.keys().is_empty());
}

#[test]
fn keys_stay_sorted_whatever_the_order_of_insertion() {
    let mut g = Gradient::new();
    for t in [700_000, 0, 1_000_000, 300_000, 500_000, 100_000] {
        assert_eq!(g.add_key(fx(t), Vector4::splat(fx(t))), Ok(()));
        let r = ratios(&g);
        assert!(r.windows(2).all(|w| w[0] < w[1]), "{:?}", r);
    }
    assert_eq!(ratios(&g), vec![0, 100_000, 300_000, 500_000, 700_000, 1_000_000]);
    for k in g.keys() {
        assert_eq!(k.value, Vector4::splat(k.ratio));
    }
}

#[test]
fn a_key_at_the_same_ratio_is_replaced() {
    let mut g = Gradient::new();
    g.add_key(fx(0), v4(1, 1, 1, 1)).unwrap();
    g.add_key(fx(500_000), v4(2, 2, 2, 2)).unwrap();
    g.add_key(fx(1_000_000), v4(3, 3, 3, 3)).unwrap();
    g.add_key(fx(500_000), v4(9, 8, 7, 6)).unwrap();
    assert_eq!(g.len(), 3);
    assert_eq!(ratios(&g), vec![0, 500_000, 1_000_000]);
    assert_eq!(g.keys()[0].value, v4(1, 1, 1, 1));
    assert_eq!(g.keys()[1].value, v4(9, 8, 7, 6));
    assert_eq!(g.keys()[2].value, v4(3, 3, 3, 3));
    g.add_key(fx(0), v4(5, 5, 5, 5)).unwrap();
    g.add_key(fx(1_000_000), v4(4, 4, 4, 4)).unwrap();
    assert_eq!(g.len(), 3);
    assert_eq!(g.keys()[0].value, v4(5, 5, 5, 5));
    assert_eq!(g.keys()[2].value, v4(4, 4, 4, 4));
}

#[test]
fn a_ratio_outside_the_unit_range_is_refused() {
    let mut g = Gradient::new();
    g.add_key(fx(200_000), v4(1, 2, 3, 4)).unwrap();
    assert_eq!(g.add_key(fx(-1), v4(0, 0, 0, 0)), Err(GradientError::RatioOutOfRange));
    assert_eq!(g.add_key(fx(1_000_001), v4(0, 0, 0, 0)), Err(GradientError::RatioOutOfRange));
    assert_eq!(g.add_key(fx(i64::MIN), v4(0, 0, 0, 0)), Err(GradientError::RatioOutOfRange));
    assert_eq!(g.add_key(fx(i64::MAX), v4(0, 0, 0, 0)), Err(GradientError::RatioOutOfRange));
    assert_eq!(ratios(&g), vec![200_000]);
    assert_eq!(g.keys()[0].value, v4(1, 2, 3, 4));
}

#[test]
fn a_gradient_without_keys_has_no_value() {
    let g = Gradient::new();
    assert_eq!(g.sample(fx(0)), Err(GradientError::NoKeys));
    assert_eq!(g.sample(fx(500_000)), Err(GradientError::NoKeys));
    assert_eq!(g.to_shader_code("f"), Err(GradientError::NoKeys));
}

#[test]
fn one_key_gives_its_value_everywhere() {
    let mut g = Gradient::new();
    g.add_key(fx(400_000), v4(7, -7, 70, -70)).unwrap();
    for t in [i64::MIN, -1, 0, 399_999, 400_000, 400_001, 1_000_000, i64::MAX] {
        assert_eq!(g.sample(fx(t)), Ok(v4(7, -7, 70, -70)));
    }
}

#[test]
fn outside_the_keys_the_curve_is_flat() {
    let mut g = Gradient::new();
    g.add_key(fx(250_000), v4(10, 20, 30, 40)).unwrap();
    g.add_key(fx(750_000), v4(-10, -20, -30, -40)).unwrap();
    g.add_key(fx(500_000), v4(1, 1, 1, 1)).unwrap();
    for t in [i64::MIN, -5, 0, 100_000, 249_999, 250_000] {
        assert_eq!(g.sample(fx(t)), Ok(v4(10, 20, 30, 40)));
    }
    for t in [750_000, 750_001, 1_000_000, 2_000_000, i64::MAX] {
        assert_eq!(g.sample(fx(t)), Ok(v4(-10, -20, -30, -40)));
    }
}

#[test]
fn at_a_key_the_curve_has_the_value_of_the_key() {
    let mut g = Gradient::new();
    g.add_key(fx(0), v4(3, 1, 4, 1)).unwrap();
    g.add_key(fx(333_333), v4(5, 9, 2, 6)).unwrap();
    g.add_key(fx(666_667), v4(-5, -3, -5, -8)).unwrap();
    g.add_key(fx(1_000_000), v4(9, 7, 9, 3)).unwrap();
    for k in g.keys().clone() {
        assert_eq!(g.sample(k.ratio), Ok(k.value));
    }
}

#[test]
fn between_two_keys_the_curve_is_a_straight_line() {
    let mut g = Gradient::new();
    g.add_key(fx(0), v4(1_000_000, 0, 0, 1_000_000)).unwrap();
    g.add_key(fx(1_000_000), v4(0, 0, 0, 0)).unwrap();
    assert_eq!(g.sample(fx(500_000)), Ok(v4(500_000, 0, 0, 500_000)));
    assert_eq!(g.sample(fx(250_000)), Ok(v4(750_000, 0, 0, 750_000)));
    assert_eq!(g.sample(fx(1)), Ok(v4(999_999, 0, 0, 999_999)));
    assert_eq!(g.sample(fx(999_999)), Ok(v4(1, 0, 0, 1)));
}

#[test]
fn the_line_is_rounded_down_to_a_millionth() {
    let mut g = Gradient::new();
    g.add_key(fx(0), v4(0, 1, 0, -1)).unwrap();
    g.add_key(fx(3), v4(1, 0, 10, -11)).unwrap();
    // one third of the way: 1/3, 1 - 1/3, 10/3, -1 - 10/3
    assert_eq!(g.sample(fx(1)), Ok(v4(0, 0, 3, -5)));
    // two thirds of the way: 2/3, 1 - 2/3, 20/3, -1 - 20/3
    assert_eq!(g.sample(fx(2)), Ok(v4(0, 0, 6, -8)));
}

#[test]
fn the_segment_is_the_one_that_holds_the_ratio() {
    let mut g = Gradient::new();
    g.add_key(fx(0), Vector4::splat(fx(0))).unwrap();
    g.add_key(fx(200_000), Vector4::splat(fx(100))).unwrap();
    g.add_key(fx(600_000), Vector4::splat(fx(-100))).unwrap();
    g.add_key(fx(1_000_000), Vector4::splat(fx(300))).unwrap();
    assert_eq!(g.sample(fx(100_000)), Ok(Vector4::splat(fx(50))));
    assert_eq!(g.sample(fx(400_000)), Ok(Vector4::splat(fx(0))));
    assert_eq!(g.sample(fx(500_000)), Ok(Vector4::splat(fx(-50))));
    assert_eq!(g.sample(fx(800_000)), Ok(Vector4::splat(fx(100))));
    assert_eq!(g.sample(fx(900_000)), Ok(Vector4::splat(fx(200))));
}

#[test]
fn extreme_values_do_not_overflow() {
    let mut g = Gradient::new();
    g.add_key(fx(0), Vector4::splat(fx(i64::MIN))).unwrap();
    g.add_key(fx(1_000_000), Vector4::splat(fx(i64::MAX))).unwrap();
    assert_eq!(g.sample(fx(0)), Ok(Vector4::splat(fx(i64::MIN))));
    assert_eq!(g.sample(fx(1_000_000)), Ok(Vector4::splat(fx(i64::MAX))));
    // MIN + floor((2^64 - 1) / 2) = MIN + 2^63 - 1 = -1
    assert_eq!(g.sample(fx(500_000)), Ok(Vector4::splat(fx(-1))));
    let mut h = Gradient::new();
    h.add_key(fx(0), Vector4::splat(fx(i64::MAX))).unwrap();
    h.add_key(fx(1_000_000), Vector4::splat(fx(i64::MIN))).unwrap();
    // MAX + floor(-(2^64 - 1) / 2) = MAX - 2^63 = -1
    assert_eq!(h.sample(fx(500_000)), Ok(Vector4::splat(fx(-1))));
}

#[test]
fn shader_code_of_one_key() {
    let mut g = Gradient::new();
    g.add_key(fx(500_000), v4(1_000_000, 500_000, 0, -250_000)).unwrap();
    let expected = "fn tint(ratio: f32) -> vec4<f32> {\n\
                    \x20   let t0 = 0.5;\n\
                    \x20   let c0 = vec4<f32>(1., 0.5, 0., -0.25);\n\
                    \x20   if (ratio <= t0) { return c0; }\n\
                    \x20   return c0;\n\
                    }\n";
    assert_eq!(g.to_shader_code("tint").unwrap(), expected);
}

#[test]
fn shader_code_of_three_keys() {
    let mut g = Gradient::new();
    g.add_key(fx(1_000_000), v4(0, 0, 0, 0)).unwrap();
    g.add_key(fx(0), v4(1_000_000, 0, 0, 1_000_000)).unwrap();
    g.add_key(fx(250_000), v4(1_000_000, 1_000_000, 0, 1_000_000)).unwrap();
    let expected = "fn color_over_lifetime(ratio: f32) -> vec4<f32> {\n\
                    \x20   let t0 = 0.;\n\
                    \x20   let c0 = vec4<f32>(1., 0., 0., 1.);\n\
                    \x20   let t1 = 0.25;\n\
                    \x20   let c1 = vec4<f32>(1., 1., 0., 1.);\n\
                    \x20   let t2 = 1.;\n\
                    \x20   let c2 = vec4<f32>(0., 0., 0., 0.);\n\
                    \x20   if (ratio <= t0) { return c0; }\n\
                    \x20   if (ratio <= t1) { return mix(c0, c1, (ratio - t0) / (t1 - t0)); }\n\
                    \x20   if (ratio <= t2) { return mix(c1, c2, (ratio - t1) / (t2 - t1)); }\n\
                    \x20   return c2;\n\
                    }\n";
    assert_eq!(g.to_shader_code("color_over_lifetime").unwrap(), expected);
}

#[test]
fn shader_code_numbers_keys_beyond_nine() {
    let mut g = Gradient::new();
    for i in 0..12 {
        g.add_key(fx(i * 50_000), Vector4::splat(fx(i * 1_000_000))).unwrap();
    }
    let code = g.to_shader_code("size").unwrap();
    assert!(code.contains("    let t11 = 0.55;\n    let c11 = vec4<f32>(11., 11., 11., 11.);\n"));
    assert!(code.contains(
        "    if (ratio <= t10) { return mix(c9, c10, (ratio - t9) / (t10 - t9)); }\n"
    ));
    assert!(code.contains(
        "    if (ratio <= t11) { return mix(c10, c11, (ratio - t10) / (t11 - t10)); }\n"
    ));
    assert!(code.ends_with("    return c11;\n}\n"));
    assert_eq!(code.matches("    if (ratio <= t").count(), 12);
}

#[test]
fn push_shader_code_appends_and_leaves_the_rest() {
    let mut g = Gradient::new();
    g.add_key(fx(0), v4(0, 0, 0, 0)).unwrap();
    let mut out = String::from("// before\n");
    assert_eq!(g.push_shader_code(&mut out, "f"), Ok(()));
    assert!(out.starts_with("// before\nfn f(ratio: f32) -> vec4<f32> {\n"));
    let mut untouched = String::from("// before\n");
    assert_eq!(
        Gradient::new().push_shader_code(&mut untouched, "f"),
        Err(GradientError::NoKeys)
    );
    assert_eq!(untouched, "// before\n");
}

#[test]
fn the_order_of_insertion_does_not_matter() {
    let keys = [(0i64, 5i64), (1_000_000, -5), (250_000, 7), (750_000, 0), (500_000, 9)];
    let mut forward = Gradient::new();
    for (t, v) in keys {
        forward.add_key(fx(t), Vector4::splat(fx(v))).unwrap();
    }
    let mut backward = Gradient::new();
    for (t, v) in keys.iter().rev() {
        backward.add_key(fx(*t), Vector4::splat(fx(*v))).unwrap();
    }
    assert_eq!(forward, backward);
    assert_eq!(forward.clone(), forward);
    assert_eq!(
        forward.to_shader_code("f").unwrap(),
        backward.to_shader_code("f").unwrap()
    );
}
