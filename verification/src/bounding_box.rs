//! Axis-aligned bounding box for spatial queries and bounds checking.

use vstd::prelude::*;
use crate::scalar::div_floor_i64;
use crate::vector::{BaseVector, COORD_LIMIT};

verus! {

/// An axis-aligned bounding box in 3D space, defined by its minimum and
/// maximum corners. A box is valid once it has absorbed at least one point.
#[derive(Debug, Clone, Copy, PartialEq, Eq, Structural)]
pub struct BoundingBox {
    /// Minimum corner of the bounding box.
    pub min: BaseVector,
    /// Maximum corner of the bounding box.
    pub max: BaseVector,
    /// Whether the bounding box has absorbed a point.
    pub valid: bool,
}

impl BoundingBox {
    /// Both corners lie within `bound` in magnitude.
    pub open spec fn bounded(self, bound: int) -> bool {
        self.min.bounded(bound) && self.max.bounded(bound)
    }

    /// What `expand` produces: the smallest box holding `self` and `point`.
    pub open spec fn spec_expand(self, point: BaseVector) -> Self {
        if !self.valid {
            BoundingBox { min: point, max: point, valid: true }
        } else {
            BoundingBox {
                min: BaseVector {
                    x: if point.x < self.min.x { point.x } else { self.min.x },
                    y: if point.y < self.min.y { point.y } else { self.min.y },
                    z: if point.z < self.min.z { point.z } else { self.min.z },
                },
                max: BaseVector {
                    x: if point.x > self.max.x { point.x } else { self.max.x },
                    y: if point.y > self.max.y { point.y } else { self.max.y },
                    z: if point.z > self.max.z { point.z } else { self.max.z },
                },
                valid: true,
            }
        }
    }

    /// Whether `point` lies inside the box, boundary included.
    pub open spec fn spec_contains(self, point: BaseVector) -> bool {
        &&& self.valid
        &&& self.min.x <= point.x <= self.max.x
        &&& self.min.y <= point.y <= self.max.y
        &&& self.min.z <= point.z <= self.max.z
    }

    /// Creates a new, still invalid bounding box.
    pub fn new() -> (r: Self)
        ensures
            r == (BoundingBox {
                min: BaseVector { x: 0, y: 0, z: 0 },
                max: BaseVector { x: 0, y: 0, z: 0 },
                valid: false,
            }),
    {
        BoundingBox {
            min: BaseVector { x: 0, y: 0, z: 0 },
            max: BaseVector { x: 0, y: 0, z: 0 },
            valid: false,
        }
    }

    /// Creates a bounding box from its two corners.
    pub fn from_points(min: BaseVector, max: BaseVector) -> (r: Self)
        ensures
            r == (BoundingBox { min, max, valid: true }),
    {
        BoundingBox { min, max, valid: true }
    }

    /// Returns whether the bounding box has absorbed at least one point.
    pub fn is_valid(&self) -> (r: bool)
        ensures
            r == self.valid,
    {
        self.valid
    }

    /// Expands the bounding box to include the given point.
    pub fn expand(&mut self, point: BaseVector)
        ensures
            *final(self) == old(self).spec_expand(point),
    {
        if !self.valid {
            self.min = point;
            self.max = point;
            self.valid = true;
        } else {
            if point.x < self.min.x {
                self.min.x = point.x;
            }
            if point.y < self.min.y {
                self.min.y = point.y;
            }
            if point.z < self.min.z {
                self.min.z = point.z;
            }
            if point.x > self.max.x {
                self.max.x = point.x;
            }
            if point.y > self.max.y {
                self.max.y = point.y;
            }
            if point.z > self.max.z {
                self.max.z = point.z;
            }
        }
    }

    /// Tests whether a point lies inside the box, boundary included.
    pub fn contains(&self, point: &BaseVector) -> (r: bool)
        ensures
            r == self.spec_contains(*point),
    {
        if !self.valid {
            return false;
        }
        point.x >= self.min.x && point.x <= self.max.x && point.y >= self.min.y
            && point.y <= self.max.y && point.z >= self.min.z && point.z <= self.max.z
    }

    /// Returns the size of the box along each axis.
    pub fn extent(&self) -> (r: BaseVector)
        requires
            self.bounded(COORD_LIMIT as int),
        ensures
            r == (BaseVector {
                x: (self.max.x - self.min.x) as i64,
                y: (self.max.y - self.min.y) as i64,
                z: (self.max.z - self.min.z) as i64,
            }),
    {
        BaseVector {
            x: self.max.x - self.min.x,
            y: self.max.y - self.min.y,
            z: self.max.z - self.min.z,
        }
    }

    /// Returns the center of the box, with each coordinate rounded down.
    pub fn center(&self) -> (r: BaseVector)
        requires
            self.bounded(COORD_LIMIT as int),
        ensures
            r == (BaseVector {
                x: ((self.min.x + self.max.x) / 2) as i64,
                y: ((self.min.y + self.max.y) / 2) as i64,
                z: ((self.min.z + self.max.z) / 2) as i64,
            }),
    {
        BaseVector {
            x: div_floor_i64(self.min.x + self.max.x, 2),
            y: div_floor_i64(self.min.y + self.max.y, 2),
            z: div_floor_i64(self.min.z + self.max.z, 2),
        }
    }

    /// Returns the longest axis: 0 for x, 1 for y, 2 for z.
    pub fn longest_axis(&self) -> (r: usize)
        requires
            self.bounded(COORD_LIMIT as int),
        ensures
            ({
                let ex = self.max.x - self.min.x;
                let ey = self.max.y - self.min.y;
                let ez = self.max.z - self.min.z;
                r == if ex >= ey && ex >= ez {
                    0int
                } else if ey >= ez {
                    1int
                } else {
                    2int
                }
            }),
    {
        let ext = self.extent();
        if ext.x >= ext.y && ext.x >= ext.z {
            0
        } else if ext.y >= ext.z {
            1
        } else {
            2
        }
    }
}

impl Default for BoundingBox {
    /// Creates a new, still invalid bounding box.
    fn default() -> (r: Self)
        ensures
            r == (BoundingBox {
                min: BaseVector { x: 0, y: 0, z: 0 },
                max: BaseVector { x: 0, y: 0, z: 0 },
                valid: false,
            }),
    {
        BoundingBox::new()
    }
}

} // verus!
