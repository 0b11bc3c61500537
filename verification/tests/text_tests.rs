use lean_bench_workloads::text::push_decimal;

fn decimal(n: usize) -> String {
    let mut out = String::new();
    push_decimal(&mut out, n);
    out
}

#[test]
fn numerals_match_the_standard_ones() {
    for n in [0, 1, 9, 10, 11, 99, 100, 101, 1234567890, usize::MAX] {
        assert_eq!(decimal(n), n.to_string());
    }
    for n in 0..2000 {
        assert_eq!(decimal(n), n.to_string());
    }
}

#[test]
fn numerals_are_appended() {
    let mut out = String::from("n=");
    push_decimal(&mut out, 40);
    push_decimal(&mut out, 2);
    assert_eq!(out, "n=402");
}
