use matched_filter::correlate::correlate;

fn mac(acc: f32, a: f32, b: f32) -> f32 {
    acc + a * b
}

#[test]
fn correlate_matches_dot_product() {
    let w = vec![1.0f32, 2.0, 3.0];
    let k = vec![4.0f32, 5.0, 6.0];
    let r = correlate(&w, &k, 0.0, mac);
    assert_eq!(r, 32.0);
}

#[test]
fn correlate_truncates_to_shorter_operand() {
    let w = vec![1.0f32, 2.0, 3.0];
    let k = vec![2.0f32, 2.0];
    assert_eq!(correlate(&w, &k, 0.0, mac), 6.0);
    assert_eq!(correlate(&k, &w, 0.0, mac), 6.0);
}

#[test]
fn correlate_is_commutative_for_equal_lengths() {
    let w = vec![0.25f32, -1.5, 3.75, 0.0, 2.125];
    let k = vec![-2.0f32, 0.5, 1.25, 9.0, -0.375];
    assert_eq!(correlate(&w, &k, 0.0, mac), correlate(&k, &w, 0.0, mac));
}

#[test]
fn correlate_empty_operand_is_zero() {
    let w = vec![1.0f32, 2.0, 3.0];
    let empty: Vec<f32> = Vec::new();
    assert_eq!(correlate(&w, &empty, 0.0, mac), 0.0);
    assert_eq!(correlate(&empty, &w, 0.0, mac), 0.0);
    assert_eq!(correlate(&empty, &empty, 0.0, mac), 0.0);
}
