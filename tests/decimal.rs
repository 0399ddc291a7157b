use ray_tracer::decimal::{decimal_len, push_decimal};

#[test]
fn decimal_text_of_numbers() {
    let mut out = b"x=".to_vec();
    push_decimal(&mut out, 0);
    out.push(b' ');
    push_decimal(&mut out, 9);
    out.push(b' ');
    push_decimal(&mut out, 10);
    out.push(b' ');
    push_decimal(&mut out, usize::MAX);
    assert_eq!(String::from_utf8(out).unwrap(), format!("x=0 9 10 {}", usize::MAX));
}

#[test]
fn decimal_lengths() {
    assert_eq!(decimal_len(0), 1);
    assert_eq!(decimal_len(99), 2);
    assert_eq!(decimal_len(100), 3);
    assert_eq!(decimal_len(usize::MAX), usize::MAX.to_string().len());
}
