//! The ways in which the object turns.
//!
//! The object turns about one, two or three of the axes at once, by one
//! angle. There are seven such modes, and the viewer steps through them in a
//! circle. A mode with several axes turns the object about each of them in
//! the order in which [`RotationMode::axes`] lists them.

use vstd::prelude::*;

verus! {

/// One of the three axes of space.
#[derive(Clone, Copy, Debug, PartialEq, Eq, Structural)]
pub enum Axis {
    X,
    Y,
    Z,
}

/// The number of rotation modes.
pub const MODE_COUNT: usize = 7;

/// A rotation mode, named by the axes that it turns the object about, in
/// their order.
#[derive(Clone, Copy, Debug, PartialEq, Eq, Structural)]
pub enum RotationMode {
    Y,
    X,
    Z,
    XY,
    ZY,
    ZX,
    YXZ,
}

impl RotationMode {
    /// The place of the mode in the circle, from zero.
    pub open spec fn place(self) -> int {
        match self {
            RotationMode::Y => 0,
            RotationMode::X => 1,
            RotationMode::Z => 2,
            RotationMode::XY => 3,
            RotationMode::ZY => 4,
            RotationMode::ZX => 5,
            RotationMode::YXZ => 6,
        }
    }

    /// The mode at the place `i`; the last mode for any place after it.
    pub open spec fn at(i: int) -> RotationMode {
        if i == 0 {
            RotationMode::Y
        } else if i == 1 {
            RotationMode::X
        } else if i == 2 {
            RotationMode::Z
        } else if i == 3 {
            RotationMode::XY
        } else if i == 4 {
            RotationMode::ZY
        } else if i == 5 {
            RotationMode::ZX
        } else {
            RotationMode::YXZ
        }
    }

    /// The mode that follows this one in the circle.
    pub open spec fn successor(self) -> RotationMode {
        RotationMode::at((self.place() + 1) % (MODE_COUNT as int))
    }

    /// The mode that is reached from this one in `steps` steps.
    pub open spec fn advance(self, steps: nat) -> RotationMode
        decreases steps,
    {
        if steps == 0 {
            self
        } else {
            self.advance((steps - 1) as nat).successor()
        }
    }

    /// The axes that the mode turns the object about, in their order.
    pub open spec fn axes_of(self) -> Seq<Axis> {
        match self {
            RotationMode::Y => seq![Axis::Y],
            RotationMode::X => seq![Axis::X],
            RotationMode::Z => seq![Axis::Z],
            RotationMode::XY => seq![Axis::X, Axis::Y],
            RotationMode::ZY => seq![Axis::Z, Axis::Y],
            RotationMode::ZX => seq![Axis::Z, Axis::X],
            RotationMode::YXZ => seq![Axis::Y, Axis::X, Axis::Z],
        }
    }

    /// The mode in which the viewer starts.
    pub fn new() -> (mode: RotationMode)
        ensures
            mode == RotationMode::at(0),
    {
        RotationMode::Y
    }

    /// The place of the mode in the circle, from zero.
    pub fn index(&self) -> (i: usize)
        ensures
            i == self.place(),
            i < MODE_COUNT,
    {
        match self {
            RotationMode::Y => 0,
            RotationMode::X => 1,
            RotationMode::Z => 2,
            RotationMode::XY => 3,
            RotationMode::ZY => 4,
            RotationMode::ZX => 5,
            RotationMode::YXZ => 6,
        }
    }

    /// The mode at the place `i`; the last mode for any place after it.
    pub fn from_index(i: usize) -> (mode: RotationMode)
        ensures
            mode == RotationMode::at(i as int),
            i < MODE_COUNT ==> mode.place() == i,
    {
        match i {
            0 => RotationMode::Y,
            1 => RotationMode::X,
            2 => RotationMode::Z,
            3 => RotationMode::XY,
            4 => RotationMode::ZY,
            5 => RotationMode::ZX,
            _ => RotationMode::YXZ,
        }
    }

    /// The mode that follows this one in the circle.
    pub fn next(&self) -> (mode: RotationMode)
        ensures
            mode == self.successor(),
            mode.place() == (self.place() + 1) % (MODE_COUNT as int),
    {
        RotationMode::from_index((self.index() + 1) % MODE_COUNT)
    }

    /// The axes that the mode turns the object about, in their order.
    pub fn axes(&self) -> (list: Vec<Axis>)
        ensures
            list@ == self.axes_of(),
            1 <= list@.len() <= 3,
    {
        let mut list: Vec<Axis> = Vec::new();
        match self {
            RotationMode::Y => {
                list.push(Axis::Y);
            },
            RotationMode::X => {
                list.push(Axis::X);
            },
            RotationMode::Z => {
                list.push(Axis::Z);
            },
            RotationMode::XY => {
                list.push(Axis::X);
                list.push(Axis::Y);
            },
            RotationMode::ZY => {
                list.push(Axis::Z);
                list.push(Axis::Y);
            },
            RotationMode::ZX => {
                list.push(Axis::Z);
                list.push(Axis::X);
            },
            RotationMode::YXZ => {
                list.push(Axis::Y);
                list.push(Axis::X);
                list.push(Axis::Z);
            },
        }
        proof {
            assert(list@ =~= self.axes_of());
        }
        list
    }
}

/// A mode is the mode at its place.
pub proof fn lemma_place_names_mode(mode: RotationMode)
    ensures
        0 <= mode.place() < MODE_COUNT,
        RotationMode::at(mode.place()) == mode,
{
}

/// Stepping moves a mode by as many places as there are steps, round the
/// circle.
pub proof fn lemma_advance_place(mode: RotationMode, steps: nat)
    ensures
        mode.advance(steps).place() == (mode.place() + steps) % (MODE_COUNT as int),
    decreases steps,
{
    if steps > 0 {
        lemma_advance_place(mode, (steps - 1) as nat);
    }
}

/// Seven steps lead from any mode back to it.
pub proof fn lemma_cycle_returns(mode: RotationMode)
    ensures
        mode.advance(MODE_COUNT as nat) == mode,
{
    lemma_advance_place(mode, MODE_COUNT as nat);
    lemma_place_names_mode(mode);
    lemma_place_names_mode(mode.advance(MODE_COUNT as nat));
}

/// On the way round the circle no mode is met twice: fewer than seven steps
/// from a mode lead to modes that differ from each other.
pub proof fn lemma_cycle_meets_each_once(mode: RotationMode, i: nat, j: nat)
    requires
        i < j < MODE_COUNT,
    ensures
        mode.advance(i) != mode.advance(j),
{
    lemma_advance_place(mode, i);
    lemma_advance_place(mode, j);
}

} // verus!
