use oklabby::{
    average_request, quantize_fractions, quantize_plan, quantize_request, ColorError, ColorSpec,
    Fraction, Rgb8, Step,
};

fn frac(num: usize, den: usize) -> Fraction {
    Fraction { num, den }
}

#[test]
fn one_step_is_rejected() {
    assert_eq!(quantize_fractions(1), Err(ColorError::InvalidStepCount));
    assert_eq!(quantize_fractions(0), Err(ColorError::InvalidStepCount));
}

#[test]
fn fractions_run_from_zero_to_one() {
    let f = quantize_fractions(8).unwrap();
    assert_eq!(f.len(), 8);
    assert_eq!(f[0], frac(0, 7));
    assert_eq!(f[3], frac(3, 7));
    assert_eq!(f[7], frac(7, 7));
}

#[test]
fn two_steps_are_the_endpoints() {
    assert_eq!(quantize_fractions(2), Ok(vec![frac(0, 1), frac(1, 1)]));
}

#[test]
fn three_steps_put_the_middle_half_way() {
    let f = quantize_fractions(3).unwrap();
    assert_eq!(f, vec![frac(0, 2), frac(1, 2), frac(2, 2)]);
    assert_eq!(2 * f[1].num, f[1].den);
}

#[test]
fn plan_needs_two_colors_and_two_steps() {
    assert_eq!(quantize_plan(1, 8), Err(ColorError::InsufficientColors));
    assert_eq!(quantize_plan(0, 8), Err(ColorError::InsufficientColors));
    assert_eq!(quantize_plan(2, 1), Err(ColorError::InvalidStepCount));
}

#[test]
fn plan_repeats_the_shared_endpoint() {
    let plan = quantize_plan(3, 2).unwrap();
    assert_eq!(
        plan,
        vec![
            Step { start: 0, end: 1, fraction: frac(0, 1) },
            Step { start: 0, end: 1, fraction: frac(1, 1) },
            Step { start: 1, end: 2, fraction: frac(0, 1) },
            Step { start: 1, end: 2, fraction: frac(1, 1) },
        ]
    );
}

#[test]
fn plan_length_is_pairs_times_steps() {
    let plan = quantize_plan(4, 8).unwrap();
    assert_eq!(plan.len(), 24);
    assert_eq!(plan[8], Step { start: 1, end: 2, fraction: frac(0, 7) });
    assert_eq!(plan[23], Step { start: 2, end: 3, fraction: frac(7, 7) });
}

#[test]
fn average_of_nothing_is_rejected() {
    assert_eq!(average_request(&Vec::new()), Err(ColorError::EmptyInput));
}

#[test]
fn average_request_parses_its_colors() {
    let inputs = vec!["#000000".to_string(), "#ffffff".to_string()];
    let colors = average_request(&inputs).unwrap();
    assert_eq!(colors.len(), 2);
    let bad = vec!["#000000".to_string(), "[1,2]".to_string()];
    assert_eq!(average_request(&bad), Err(ColorError::InvalidColorFormat));
}

#[test]
fn quantize_black_to_white_in_two_steps() {
    let inputs = vec!["#000000".to_string(), "#ffffff".to_string()];
    let (colors, plan) = quantize_request(&inputs, 2).unwrap();
    assert_eq!(
        colors,
        vec![
            ColorSpec::Srgb(Rgb8 { r: 0, g: 0, b: 0 }),
            ColorSpec::Srgb(Rgb8 { r: 255, g: 255, b: 255 }),
        ]
    );
    assert_eq!(plan.len(), 2);
    assert_eq!(plan[0], Step { start: 0, end: 1, fraction: frac(0, 1) });
    assert_eq!(plan[1], Step { start: 0, end: 1, fraction: frac(1, 1) });
}

#[test]
fn quantize_request_errors_in_order() {
    let one = vec!["#000".to_string()];
    assert_eq!(quantize_request(&one, 8), Err(ColorError::InsufficientColors));
    let two = vec!["#000".to_string(), "#fff".to_string()];
    assert_eq!(quantize_request(&two, 1), Err(ColorError::InvalidStepCount));
    let bad = vec!["#000".to_string(), "#ff".to_string()];
    assert_eq!(quantize_request(&bad, 1), Err(ColorError::InvalidColorFormat));
}
