use stwo::m31::{M31, P};
use stwo::column::BaseFieldVec;
use stwo::packed::{PackedBaseField, N_LANES};

fn lanes(seed: u32) -> Vec<M31> {
    (0..N_LANES as u32).map(|i| M31::reduce(seed.wrapping_mul(2654435761).wrapping_add(i * 97_000_003))).collect()
}

#[test]
fn packed_ops_match_each_lane() {
    let a = PackedBaseField::from_values(&lanes(7));
    let b = PackedBaseField::from_values(&lanes(11));
    let (s, d, p, q) = (a.add(&b), a.sub(&b), a.mul(&b), a.square());
    for i in 0..N_LANES {
        assert_eq!(s.lanes[i], a.lanes[i].add(b.lanes[i]));
        assert_eq!(d.lanes[i], a.lanes[i].sub(b.lanes[i]));
        assert_eq!(p.lanes[i], a.lanes[i].mul(b.lanes[i]));
        assert_eq!(q.lanes[i], a.lanes[i].square());
    }
}

#[test]
fn broadcast_fills_every_lane() {
    let x = PackedBaseField::broadcast(M31::from_u32_unchecked(P - 3));
    assert_eq!(x.lanes.len(), N_LANES);
    assert!(x.lanes.iter().all(|v| v.value == P - 3));
    let y = x.add(&PackedBaseField::broadcast(M31::from_u32_unchecked(5)));
    assert!(y.lanes.iter().all(|v| v.value == 2));
}

#[test]
fn column_chunks_map_to_lanes() {
    let data: Vec<M31> = (0u32..48).map(M31::from_u32_unchecked).collect();
    let mut column = BaseFieldVec { data };
    let chunk = column.packed_at(1);
    for l in 0..N_LANES {
        assert_eq!(chunk.lanes[l].value, 16 + l as u32);
    }
    let doubled = chunk.add(&chunk);
    column.set_packed(1, &doubled);
    for i in 0..48usize {
        let expected = if (16..32).contains(&i) { 2 * i as u32 } else { i as u32 };
        assert_eq!(column.data[i].value, expected);
    }
}
