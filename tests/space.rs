use oklab::{oklab_to_srgb, srgb_to_oklab, Rgb};
use oklabby::{hex_code, parse_colors, ColorSpec, Rgb8};

fn round_trip(r: u8, g: u8, b: u8) -> [u8; 3] {
    let back = oklab_to_srgb(srgb_to_oklab(Rgb::new(r, g, b)));
    [back.r, back.g, back.b]
}

#[test]
fn black_and_white_round_trip_exactly() {
    assert_eq!(round_trip(0, 0, 0), [0, 0, 0]);
    assert_eq!(round_trip(255, 255, 255), [255, 255, 255]);
}

#[test]
fn byte_triplets_round_trip_within_one() {
    for r in (0..=255u8).step_by(5) {
        for g in (0..=255u8).step_by(5) {
            for b in (0..=255u8).step_by(5) {
                let back = round_trip(r, g, b);
                for (x, y) in [r, g, b].iter().zip(back.iter()) {
                    assert!((*x as i32 - *y as i32).abs() <= 1, "{r} {g} {b} -> {back:?}");
                }
            }
        }
    }
}

#[test]
fn black_and_white_average_to_mid_gray() {
    let inputs = vec!["#000000".to_string(), "#ffffff".to_string()];
    let colors = parse_colors(&inputs).unwrap();
    let labs: Vec<oklab::Oklab> = colors
        .iter()
        .map(|c| match c {
            ColorSpec::Srgb(c) => srgb_to_oklab(Rgb::new(c.r, c.g, c.b)),
            ColorSpec::Oklab(_) => unreachable!(),
        })
        .collect();
    let l = (labs[0].l + labs[1].l) / 2.0;
    let a = (labs[0].a + labs[1].a) / 2.0;
    let b = (labs[0].b + labs[1].b) / 2.0;
    assert!((l - 0.5).abs() < 1e-3);
    let rgb = oklab_to_srgb(oklab::Oklab { l, a, b });
    assert_eq!(rgb.r, rgb.g);
    assert_eq!(rgb.g, rgb.b);
    let code = hex_code(Rgb8 { r: rgb.r, g: rgb.g, b: rgb.b });
    assert_eq!(code.len(), 7);
}
