use stwo::m31::{M31, P};
use stwo::backend::SimdBackend;
use stwo::column::SecureFieldVec;
use stwo::qm31::{CM31, QM31};

fn m(v: u32) -> M31 {
    M31::from_u32_unchecked(v)
}

fn q(a: u32, b: u32, c: u32, d: u32) -> QM31 {
    QM31::from_m31s(m(a), m(b), m(c), m(d))
}

#[test]
fn i_squared_is_minus_one() {
    let i = CM31::from_m31(m(0), m(1));
    assert_eq!(i.mul(i), CM31::from_m31(m(P - 1), m(0)));
}

#[test]
fn u_squared_is_two_plus_i() {
    let u = q(0, 0, 1, 0);
    assert_eq!(u.mul(u), q(2, 1, 0, 0));
}

#[test]
fn secure_field_ops() {
    let x = q(1, 2, 3, 4);
    let y = q(4, 5, 6, 7);
    assert_eq!(x.mul(y), q(P - 71, 93, P - 16, 50));
    assert_eq!(x.add(y), q(5, 7, 9, 11));
    assert_eq!(x.sub(y), q(P - 3, P - 3, P - 3, P - 3));
    assert_eq!(QM31::from_base(m(8)).mul(x), q(8, 16, 24, 32));
    assert_eq!(CM31::from_m31(m(1), m(2)).sub(CM31::from_m31(m(3), m(1))), CM31::from_m31(m(P - 2), m(1)));
}

#[test]
fn secure_field_inverse() {
    let one = q(1, 0, 0, 0);
    for x in [q(1, 2, 3, 4), q(0, 0, 1, 0), q(P - 1, 0, 0, 0), q(123456, 7, 0, 99)] {
        let y = x.try_inverse().expect("nonzero elements have inverses");
        assert_eq!(x.mul(y), one);
    }
    assert_eq!(q(0, 0, 0, 0).try_inverse(), None);
    assert_eq!(q(2, 0, 0, 0).try_inverse(), Some(q(1073741824, 0, 0, 0)));
}

#[test]
fn secure_column_bit_reversal() {
    let mut column = SecureFieldVec { data: (0u32..16).map(|i| q(i, i + 1, 0, 2 * i)).collect() };
    SimdBackend::bit_reverse_secure_column(&mut column);
    assert_eq!(column.data[1], q(8, 9, 0, 16));
    assert_eq!(column.data[3], q(12, 13, 0, 24));
    assert_eq!(column.data[15], q(15, 16, 0, 30));
}
