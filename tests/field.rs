use stwo::backend::SimdBackend;
use stwo::column::{batch_inverse, check_all_nonzero, BaseFieldVec};
use stwo::m31::{M31, P};

fn m(v: u32) -> M31 {
    M31::from_u32_unchecked(v)
}

#[test]
fn add_wraps_at_modulus() {
    assert_eq!(m(P - 1).add(m(5)).value, 4);
    assert_eq!(m(3).add(m(4)).value, 7);
}

#[test]
fn sub_and_neg_wrap() {
    assert_eq!(m(3).sub(m(5)).value, P - 2);
    assert_eq!(m(0).neg().value, 0);
    assert_eq!(m(1).neg().value, P - 1);
}

#[test]
fn mul_and_square() {
    assert_eq!(m(P - 1).mul(m(P - 1)).value, 1);
    assert_eq!(m(65536).square().value, 2);
    assert_eq!(m(12345).mul(m(6789)).value, 83810205);
}

#[test]
fn reduce_takes_remainder() {
    assert_eq!(M31::reduce(P).value, 0);
    assert_eq!(M31::reduce(u32::MAX).value, 1);
}

#[test]
fn inverse_of_two_is_half() {
    assert_eq!(m(2).inverse().value, 1073741824);
    assert_eq!(m(1).inverse().value, 1);
    assert_eq!(m(P - 1).inverse().value, P - 1);
}

#[test]
fn inverse_times_element_is_one() {
    for v in [3u32, 7, 1 << 20, 123456789, P - 2] {
        let x = m(v);
        assert_eq!(x.mul(x.inverse()).value, 1);
    }
}

#[test]
fn batch_inverse_inverts_every_element() {
    let column: Vec<M31> = [1u32, 2, 3, 5, 1000, P - 1, 987654321, 42].iter().map(|&v| m(v)).collect();
    let mut dst = vec![M31::zero(); column.len()];
    batch_inverse(&column, &mut dst);
    for i in 0..column.len() {
        assert_eq!(column[i].mul(dst[i]).value, 1);
        assert_eq!(dst[i], column[i].inverse());
    }
}

#[test]
fn batch_inverse_of_empty_column() {
    let column: Vec<M31> = Vec::new();
    let mut dst: Vec<M31> = Vec::new();
    batch_inverse(&column, &mut dst);
    assert!(dst.is_empty());
}

#[test]
fn simd_backend_batch_inverse() {
    let data: Vec<M31> = (1u32..=64).map(|v| m(v * 1000003)).collect();
    let column = BaseFieldVec { data };
    let mut dst = BaseFieldVec::zeros(column.len());
    SimdBackend::batch_inverse(&column, &mut dst);
    assert_eq!(dst.len(), 64);
    for i in 0..64 {
        assert_eq!(column.data[i].mul(dst.data[i]).value, 1);
    }
}

#[test]
fn try_inverse_of_zero_is_none() {
    assert_eq!(m(0).try_inverse(), None);
    assert_eq!(m(2).try_inverse(), Some(m(1073741824)));
    assert_eq!(m(P - 1).try_inverse(), Some(m(P - 1)));
}

#[test]
fn nonzero_check_of_a_column() {
    assert!(check_all_nonzero(&vec![m(1), m(2), m(3)]));
    assert!(!check_all_nonzero(&vec![m(1), m(0), m(3)]));
    assert!(check_all_nonzero(&Vec::new()));
}

#[test]
fn simd_backend_bit_reverse_column() {
    let mut column = BaseFieldVec { data: (0u32..16).map(m).collect() };
    SimdBackend::bit_reverse_column(&mut column);
    let got: Vec<u32> = column.data.iter().map(|x| x.value).collect();
    assert_eq!(got, vec![0, 8, 4, 12, 2, 10, 6, 14, 1, 9, 5, 13, 3, 11, 7, 15]);
    SimdBackend::bit_reverse_column(&mut column);
    let back: Vec<u32> = column.data.iter().map(|x| x.value).collect();
    assert_eq!(back, (0u32..16).collect::<Vec<u32>>());
    let mut wide = BaseFieldVec { data: (0u32..32).map(m).collect() };
    SimdBackend::bit_reverse_column(&mut wide);
    assert_eq!(wide.data[1].value, 16);
    assert_eq!(wide.data[3].value, 24);
}
