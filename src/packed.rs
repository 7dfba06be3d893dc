use vstd::prelude::*;
use crate::m31::{fadd, fmul, fsub, M31};

verus! {

/// The number of lanes of a packed value.
pub const N_LANES: usize = 16;

/// A batch of `N_LANES` base-field values, worked on lane by lane.
pub struct PackedBaseField {
    pub lanes: Vec<M31>,
}

impl PackedBaseField {
    pub open spec fn wf(&self) -> bool {
        &&& self.lanes.len() == N_LANES
        &&& forall|i: int| 0 <= i < N_LANES ==> (#[trigger] self.lanes[i]).wf()
    }

    /// The value of lane `i`.
    pub open spec fn lane(&self, i: int) -> int {
        self.lanes[i].val()
    }

    /// The same value in every lane.
    pub fn broadcast(x: M31) -> (r: PackedBaseField)
        requires
            x.wf(),
        ensures
            r.wf(),
            forall|i: int| 0 <= i < N_LANES ==> #[trigger] r.lanes[i] == x,
    {
        let mut lanes: Vec<M31> = Vec::new();
        while lanes.len() < N_LANES
            invariant
                x.wf(),
                lanes.len() <= N_LANES,
                forall|i: int| 0 <= i < lanes.len() ==> #[trigger] lanes[i] == x,
            decreases N_LANES - lanes.len(),
        {
            lanes.push(x);
        }
        PackedBaseField { lanes }
    }

    /// The lanes taken from `values`, which must hold one value per lane.
    pub fn from_values(values: &Vec<M31>) -> (r: PackedBaseField)
        requires
            values.len() == N_LANES,
            forall|i: int| 0 <= i < N_LANES ==> (#[trigger] values[i]).wf(),
        ensures
            r.wf(),
            r.lanes@ == values@,
    {
        PackedBaseField { lanes: values.clone() }
    }

    pub fn add(&self, o: &PackedBaseField) -> (r: PackedBaseField)
        requires
            self.wf(),
            o.wf(),
        ensures
            r.wf(),
            forall|i: int| 0 <= i < N_LANES ==> #[trigger] r.lane(i) == fadd(self.lane(i), o.lane(i)),
    {
        let mut lanes: Vec<M31> = Vec::new();
        while lanes.len() < N_LANES
            invariant
                self.wf(),
                o.wf(),
                lanes.len() <= N_LANES,
                forall|i: int|
                    0 <= i < lanes.len() ==> (#[trigger] lanes[i]).wf() && lanes[i].val() == fadd(
                        self.lane(i),
                        o.lane(i),
                    ),
            decreases N_LANES - lanes.len(),
        {
            let i = lanes.len();
            lanes.push(self.lanes[i].add(o.lanes[i]));
        }
        PackedBaseField { lanes }
    }

    pub fn sub(&self, o: &PackedBaseField) -> (r: PackedBaseField)
        requires
            self.wf(),
            o.wf(),
        ensures
            r.wf(),
            forall|i: int| 0 <= i < N_LANES ==> #[trigger] r.lane(i) == fsub(self.lane(i), o.lane(i)),
    {
        let mut lanes: Vec<M31> = Vec::new();
        while lanes.len() < N_LANES
            invariant
                self.wf(),
                o.wf(),
                lanes.len() <= N_LANES,
                forall|i: int|
                    0 <= i < lanes.len() ==> (#[trigger] lanes[i]).wf() && lanes[i].val() == fsub(
                        self.lane(i),
                        o.lane(i),
                    ),
            decreases N_LANES - lanes.len(),
        {
            let i = lanes.len();
            lanes.push(self.lanes[i].sub(o.lanes[i]));
        }
        PackedBaseField { lanes }
    }

    pub fn mul(&self, o: &PackedBaseField) -> (r: PackedBaseField)
        requires
            self.wf(),
            o.wf(),
        ensures
            r.wf(),
            forall|i: int| 0 <= i < N_LANES ==> #[trigger] r.lane(i) == fmul(self.lane(i), o.lane(i)),
    {
        let mut lanes: Vec<M31> = Vec::new();
        while lanes.len() < N_LANES
            invariant
                self.wf(),
                o.wf(),
                lanes.len() <= N_LANES,
                forall|i: int|
                    0 <= i < lanes.len() ==> (#[trigger] lanes[i]).wf() && lanes[i].val() == fmul(
                        self.lane(i),
                        o.lane(i),
                    ),
            decreases N_LANES - lanes.len(),
        {
            let i = lanes.len();
            lanes.push(self.lanes[i].mul(o.lanes[i]));
        }
        PackedBaseField { lanes }
    }

    pub fn square(&self) -> (r: PackedBaseField)
        requires
            self.wf(),
        ensures
            r.wf(),
            forall|i: int| 0 <= i < N_LANES ==> #[trigger] r.lane(i) == fmul(self.lane(i), self.lane(i)),
    {
        self.mul(self)
    }
}

} // verus!
