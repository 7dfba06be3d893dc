use stwo::circle::{coset_vanishing, index_to_point, CirclePoint, Coset, CIRCLE_ORDER};
use stwo::domain::{bit_reverse, bit_reverse_index_of, constraint_denominators, CircleDomain};
use stwo::m31::{M31, P};

fn on_circle(p: CirclePoint) -> bool {
    p.x.square().add(p.y.square()) == M31::one()
}

#[test]
fn generator_has_order_two_to_the_31() {
    let g = CirclePoint::generator();
    assert!(on_circle(g));
    assert_eq!(g.mul(1u64 << 31), CirclePoint::zero());
    let half = g.mul(1u64 << 30);
    assert_eq!(half.x.value, P - 1);
    assert_eq!(half.y.value, 0);
    assert_eq!(index_to_point(CIRCLE_ORDER), CirclePoint::zero());
}

#[test]
fn double_x_matches_doubling() {
    let p = index_to_point(123456789);
    assert!(on_circle(p));
    assert_eq!(CirclePoint::double_x(p.x), p.add(p).x);
    assert_eq!(p.sub(p), CirclePoint::zero());
}

#[test]
fn vanishing_is_zero_on_members() {
    for log in [1u32, 3, 4, 7] {
        let coset = Coset::odds(log);
        for i in 0..(1u32 << log) {
            let p = coset.at(i);
            assert!(on_circle(p));
            assert_eq!(coset_vanishing(coset, p).value, 0, "log {} point {}", log, i);
        }
    }
}

#[test]
fn vanishing_is_nonzero_off_the_coset() {
    let coset = Coset::odds(4);
    let others = [
        CirclePoint::zero(),
        CirclePoint::generator(),
        index_to_point(1 << 25),
        index_to_point(1 << 27),
        index_to_point(3 << 26).add(CirclePoint::generator()),
    ];
    for p in others {
        assert_ne!(coset_vanishing(coset, p).value, 0);
    }
    let other_coset = Coset::new(5, 4);
    for i in 0..16 {
        assert_ne!(coset_vanishing(coset, other_coset.at(i)).value, 0);
        assert_eq!(coset_vanishing(other_coset, other_coset.at(i)).value, 0);
    }
}

#[test]
fn trace_domain_is_the_canonic_coset() {
    let coset = Coset::odds(4);
    let domain = CircleDomain::canonic(4);
    for i in 0..16 {
        assert_eq!(coset_vanishing(coset, domain.at(i)).value, 0);
    }
}

#[test]
fn bit_reversal_of_indices() {
    assert_eq!(bit_reverse_index_of(1, 3), 4);
    assert_eq!(bit_reverse_index_of(6, 3), 3);
    assert_eq!(bit_reverse_index_of(0b10110, 5), 0b01101);
    let v: Vec<M31> = (0u32..8).map(M31::from_u32_unchecked).collect();
    let r: Vec<u32> = bit_reverse(&v, 3).iter().map(|x| x.value).collect();
    assert_eq!(r, vec![0, 4, 2, 6, 1, 5, 3, 7]);
}

#[test]
fn denominators_are_nonzero_on_the_evaluation_domain() {
    let denoms = constraint_denominators(4);
    assert_eq!(denoms.len(), 32);
    let coset = Coset::odds(4);
    let domain = CircleDomain::canonic(5);
    for j in 0..32u64 {
        assert_ne!(denoms[j as usize].value, 0);
        let p = domain.at(bit_reverse_index_of(j, 5) as u32);
        assert_eq!(denoms[j as usize], coset_vanishing(coset, p));
    }
}
