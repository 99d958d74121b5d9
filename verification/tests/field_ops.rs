use stark_trace::Felt;

#[test]
fn felt_reduces_on_construction() {
    assert_eq!(Felt::new(300).as_u64(), 43);
    assert_eq!(Felt::new(257).as_u64(), 0);
    assert_eq!(Felt::new(256).as_u64(), 256);
    assert_eq!(Felt::zero().as_u64(), 0);
    assert_eq!(Felt::one().as_u64(), 1);
}

#[test]
fn felt_arithmetic_exact_values() {
    let a = Felt::new(200);
    let b = Felt::new(100);
    assert_eq!(a.add(b).as_u64(), 43); // 300 mod 257
    assert_eq!(a.sub(b).as_u64(), 100);
    assert_eq!(b.sub(a).as_u64(), 157); // -100 mod 257
    assert_eq!(a.mul(b).as_u64(), 20000 % 257);
}

#[test]
fn felt_exponentiation() {
    assert_eq!(Felt::new(2).exp(3).as_u64(), 8);
    assert_eq!(Felt::new(2).exp(8).as_u64(), 256);
    // The group has order 256, so squaring 256 gives 1: 2^16 = (2^8)^2 = 256^2 = 1.
    assert_eq!(Felt::new(2).exp(16).as_u64(), 1);
    assert_eq!(Felt::new(5).exp(0).as_u64(), 1);
}

#[test]
fn felt_inverse_inverts_every_nonzero_element() {
    for x in 1..257u64 {
        let f = Felt::new(x);
        let inv = f.inverse();
        assert_eq!(f.mul(inv).as_u64(), 1, "inverse failed for {}", x);
    }
}

#[test]
fn felt_inverse_of_zero_is_zero() {
    assert_eq!(Felt::zero().inverse().as_u64(), 0);
}

#[test]
fn felt_inverse_exact_value() {
    // 2 * 129 = 258 = 1 mod 257.
    assert_eq!(Felt::new(2).inverse().as_u64(), 129);
}
