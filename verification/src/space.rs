//! Positions, velocities and the one rule of motion: a body that travels at a
//! constant speed for a while ends up speed × time further along.

use vstd::prelude::*;

verus! {

/// Where a coordinate is after travelling at `speed` for `delta` nanoseconds.
pub open spec fn coordinate_after(start: i128, speed: i64, delta: u64) -> int {
    start + speed * delta
}

/// Whether the coordinate reached by that travel can still be stored.
pub open spec fn coordinate_fits(start: i128, speed: i64, delta: u64) -> bool {
    i128::MIN <= coordinate_after(start, speed, delta) <= i128::MAX
}

/// The distance covered at `speed` in `delta` nanoseconds. It always fits: a speed
/// has 63 bits and a duration 64.
pub fn distance(speed: i64, delta: u64) -> (covered: i128)
    ensures
        covered == speed * delta,
{
    let wide_speed: i128 = speed as i128;
    let wide_delta: i128 = delta as i128;
    assert(-0x8000_0000_0000_0000 * 0xffff_ffff_ffff_ffff <= wide_speed * wide_delta
        <= 0x7fff_ffff_ffff_ffff * 0xffff_ffff_ffff_ffff) by (nonlinear_arith)
        requires
            -0x8000_0000_0000_0000 <= wide_speed <= 0x7fff_ffff_ffff_ffff,
            0 <= wide_delta <= 0xffff_ffff_ffff_ffff,
    ;
    wide_speed * wide_delta
}

/// Tells whether [`travel`] may be called on these values.
pub fn travel_fits(start: i128, speed: i64, delta: u64) -> (fits: bool)
    ensures
        fits == coordinate_fits(start, speed, delta),
{
    start.checked_add(distance(speed, delta)).is_some()
}

/// Moves a coordinate at `speed` for `delta` nanoseconds.
pub fn travel(start: i128, speed: i64, delta: u64) -> (end: i128)
    requires
        coordinate_fits(start, speed, delta),
    ensures
        end == coordinate_after(start, speed, delta),
{
    start + distance(speed, delta)
}

/// A point or displacement in space, in length steps.
#[derive(Clone, Copy, Debug, PartialEq, Eq, Structural)]
pub struct Vec3 {
    /// To the right of the centre of the window.
    pub x: i128,
    /// Above the centre of the window.
    pub y: i128,
    /// Towards the viewer.
    pub z: i128,
}

/// A constant speed along each axis, in speed steps.
#[derive(Clone, Copy, Debug, PartialEq, Eq, Structural)]
pub struct Velocity {
    /// Speed to the right.
    pub x: i64,
    /// Speed upward.
    pub y: i64,
    /// Speed towards the viewer.
    pub z: i64,
}

impl Vec3 {
    /// The point after moving with `velocity` for `delta` nanoseconds.
    pub open spec fn advanced(self, velocity: Velocity, delta: u64) -> Vec3 {
        Vec3 {
            x: coordinate_after(self.x, velocity.x, delta) as i128,
            y: coordinate_after(self.y, velocity.y, delta) as i128,
            z: coordinate_after(self.z, velocity.z, delta) as i128,
        }
    }

    /// Whether the point reached by that move can still be stored.
    pub open spec fn can_advance(self, velocity: Velocity, delta: u64) -> bool {
        &&& coordinate_fits(self.x, velocity.x, delta)
        &&& coordinate_fits(self.y, velocity.y, delta)
        &&& coordinate_fits(self.z, velocity.z, delta)
    }

    /// The point with these coordinates.
    pub fn new(x: i128, y: i128, z: i128) -> (point: Vec3)
        ensures
            point == (Vec3 { x, y, z }),
    {
        Vec3 { x, y, z }
    }

    /// Tells whether [`Vec3::advance`] may be called on these values.
    pub fn advance_fits(&self, velocity: &Velocity, delta: u64) -> (fits: bool)
        ensures
            fits == self.can_advance(*velocity, delta),
    {
        travel_fits(self.x, velocity.x, delta) && travel_fits(self.y, velocity.y, delta)
            && travel_fits(self.z, velocity.z, delta)
    }

    /// Moves the point with `velocity` for `delta` nanoseconds.
    pub fn advance(&self, velocity: &Velocity, delta: u64) -> (end: Vec3)
        requires
            self.can_advance(*velocity, delta),
        ensures
            end == self.advanced(*velocity, delta),
            end.x == self.x + velocity.x * delta,
            end.y == self.y + velocity.y * delta,
            end.z == self.z + velocity.z * delta,
    {
        Vec3 {
            x: travel(self.x, velocity.x, delta),
            y: travel(self.y, velocity.y, delta),
            z: travel(self.z, velocity.z, delta),
        }
    }
}

impl Velocity {
    /// The velocity with these components.
    pub fn new(x: i64, y: i64, z: i64) -> (velocity: Velocity)
        ensures
            velocity == (Velocity { x, y, z }),
    {
        Velocity { x, y, z }
    }
}

} // verus!
