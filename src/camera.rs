use vstd::prelude::*;

verus! {

/// One unit step of the camera along one world axis.
#[derive(Clone, Copy, Debug, PartialEq, Eq, Structural)]
pub enum Move {
    Left,
    Right,
    Up,
    Down,
    Forward,
    Back,
}

impl Move {
    /// The step this move makes, as `(dx, dy, dz)`.
    pub open spec fn delta(self) -> (int, int, int) {
        match self {
            Move::Left => (-1, 0, 0),
            Move::Right => (1, 0, 0),
            Move::Up => (0, 1, 0),
            Move::Down => (0, -1, 0),
            Move::Forward => (0, 0, 1),
            Move::Back => (0, 0, -1),
        }
    }

    /// The move that undoes this one.
    pub open spec fn opposite(self) -> Move {
        match self {
            Move::Left => Move::Right,
            Move::Right => Move::Left,
            Move::Up => Move::Down,
            Move::Down => Move::Up,
            Move::Forward => Move::Back,
            Move::Back => Move::Forward,
        }
    }
}

/// `p` after one move `m`.
pub open spec fn step(p: (int, int, int), m: Move) -> (int, int, int) {
    (p.0 + m.delta().0, p.1 + m.delta().1, p.2 + m.delta().2)
}

/// Every coordinate of `p` fits in an `i64`.
pub open spec fn fits_i64(p: (int, int, int)) -> bool {
    &&& i64::MIN <= p.0 <= i64::MAX
    &&& i64::MIN <= p.1 <= i64::MAX
    &&& i64::MIN <= p.2 <= i64::MAX
}

/// How far the camera stands from the pose it was built with, in whole unit
/// steps along each axis. The eye and the film's origin are each that pose
/// plus this translation, so every move carries both by the same amount and
/// keeps the field of view.
#[derive(Clone, Copy, Debug, PartialEq, Eq, Structural)]
pub struct Translation {
    pub x: i64,
    pub y: i64,
    pub z: i64,
}

impl View for Translation {
    type V = (int, int, int);

    open spec fn view(&self) -> (int, int, int) {
        (self.x as int, self.y as int, self.z as int)
    }
}

impl Translation {
    /// No translation: the camera stands where it was built.
    pub fn zero() -> (r: Translation)
        ensures
            r@ == (0int, 0int, 0int),
    {
        Translation { x: 0, y: 0, z: 0 }
    }

    /// Whether one more move `m` stays representable.
    pub fn can_move(&self, m: Move) -> (r: bool)
        ensures
            r == fits_i64(step(self@, m)),
    {
        match m {
            Move::Left => self.x > i64::MIN,
            Move::Right => self.x < i64::MAX,
            Move::Up => self.y < i64::MAX,
            Move::Down => self.y > i64::MIN,
            Move::Forward => self.z < i64::MAX,
            Move::Back => self.z > i64::MIN,
        }
    }

    /// Moves the camera one unit step as `m` says.
    pub fn move_one(&mut self, m: Move)
        requires
            fits_i64(step(old(self)@, m)),
        ensures
            final(self)@ == step(old(self)@, m),
    {
        match m {
            Move::Left => self.x = self.x - 1,
            Move::Right => self.x = self.x + 1,
            Move::Up => self.y = self.y + 1,
            Move::Down => self.y = self.y - 1,
            Move::Forward => self.z = self.z + 1,
            Move::Back => self.z = self.z - 1,
        }
    }
}

/// A move followed by the opposite move is always possible and puts the
/// camera back exactly where it stood: moving right then left restores the
/// eye and the film's origin.
pub proof fn lemma_move_then_opposite_restores(t: Translation, m: Move)
    requires
        fits_i64(step(t@, m)),
    ensures
        fits_i64(step(step(t@, m), m.opposite())),
        step(step(t@, m), m.opposite()) == t@,
{
}

} // verus!
