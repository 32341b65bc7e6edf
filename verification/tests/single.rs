use floaty::single::Single;

fn s(v: f32) -> Single {
    Single { bits: v.to_bits() }
}

const SAMPLES: [f32; 16] = [
    0.0,
    -0.0,
    1.0,
    -1.0,
    0.5,
    -0.5,
    1.5,
    255.0,
    -300.25,
    f32::MIN_POSITIVE,
    1e-45,
    f32::MAX,
    f32::MIN,
    f32::INFINITY,
    f32::NEG_INFINITY,
    f32::NAN,
];

#[test]
fn comparisons_agree_with_the_machine() {
    for a in SAMPLES {
        for b in SAMPLES {
            assert_eq!(s(a).is_below(s(b)), a < b, "{a} < {b}");
            assert_eq!(s(a).is_at_most(s(b)), a <= b, "{a} <= {b}");
            assert_eq!(s(a).is_alike(s(b)), a == b, "{a} == {b}");
        }
        assert_eq!(s(a).is_nan(), a.is_nan());
    }
}

#[test]
fn clamping_agrees_with_the_machine() {
    for v in SAMPLES {
        for lo in SAMPLES {
            for hi in SAMPLES {
                if lo <= hi {
                    let got = s(v).clamp(s(lo), s(hi));
                    assert_eq!(got.bits, v.clamp(lo, hi).to_bits(), "{v} in {lo}..={hi}");
                }
            }
        }
    }
}

#[test]
fn signs_agree_with_the_machine() {
    for v in SAMPLES {
        assert_eq!(s(v).negate().bits, (-v).to_bits());
        assert_eq!(s(v).abs().bits, v.abs().to_bits());
        assert_eq!(s(v).negate().negate(), s(v));
    }
}

#[test]
fn clamping_twice_is_clamping_once() {
    let once = s(7.0).clamp(s(0.2), s(1.5));
    assert_eq!(once, s(1.5));
    assert_eq!(once.clamp(s(0.2), s(1.5)), once);
    assert_eq!(s(-7.0).clamp(s(0.2), s(1.5)), s(0.2));
    assert_eq!(s(0.8).clamp(s(0.2), s(1.5)), s(0.8));
}
