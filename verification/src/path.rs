//! Path commands, the builder that records them and the path it yields.

use vstd::prelude::*;
use crate::point::{LyonPoint, LyonVector};

verus! {

/// One step of a path, as the host issued it.
#[derive(Clone, Copy, Debug, PartialEq, Eq, Structural)]
pub enum PathCommand {
    /// Start a new subpath at the point.
    MoveTo(LyonPoint),
    /// A straight segment from the current point to the point.
    LineTo(LyonPoint),
    /// A quadratic curve: control point, then end point.
    QuadraticTo(LyonPoint, LyonPoint),
    /// A cubic curve: two control points, then end point.
    CubicTo(LyonPoint, LyonPoint, LyonPoint),
    /// Start a new subpath at the current point displaced by the vector.
    RelativeMoveTo(LyonVector),
    /// Close the current subpath.
    Close,
}

impl PathCommand {
    /// Every coordinate that the command carries is a finite number.
    pub open spec fn is_finite(self) -> bool {
        match self {
            PathCommand::MoveTo(to) => to.is_finite(),
            PathCommand::LineTo(to) => to.is_finite(),
            PathCommand::QuadraticTo(ctrl, to) => ctrl.is_finite() && to.is_finite(),
            PathCommand::CubicTo(ctrl1, ctrl2, to) => ctrl1.is_finite() && ctrl2.is_finite()
                && to.is_finite(),
            PathCommand::RelativeMoveTo(by) => by.is_finite(),
            PathCommand::Close => true,
        }
    }

    /// Whether every coordinate that the command carries is a finite number.
    pub fn finite(&self) -> (r: bool)
        ensures
            r == self.is_finite(),
    {
        match self {
            PathCommand::MoveTo(to) => to.finite(),
            PathCommand::LineTo(to) => to.finite(),
            PathCommand::QuadraticTo(ctrl, to) => ctrl.finite() && to.finite(),
            PathCommand::CubicTo(ctrl1, ctrl2, to) => ctrl1.finite() && ctrl2.finite()
                && to.finite(),
            PathCommand::RelativeMoveTo(by) => by.finite(),
            PathCommand::Close => true,
        }
    }
}

/// Every command of the sequence carries finite coordinates only.
pub open spec fn all_finite(commands: Seq<PathCommand>) -> bool {
    forall|i: int| 0 <= i < commands.len() ==> (#[trigger] commands[i]).is_finite()
}

/// Records path commands in the order in which they are issued. Its view is
/// the sequence recorded so far.
#[derive(Debug)]
pub struct LyonBuilder {
    commands: Vec<PathCommand>,
}

impl View for LyonBuilder {
    type V = Seq<PathCommand>;

    closed spec fn view(&self) -> Seq<PathCommand> {
        self.commands@
    }
}

/// A finished path: the commands of a builder, in order, never to change
/// again. Its view is that sequence.
#[derive(Debug)]
pub struct Path {
    commands: Vec<PathCommand>,
}

impl View for Path {
    type V = Seq<PathCommand>;

    closed spec fn view(&self) -> Seq<PathCommand> {
        self.commands@
    }
}

/// A builder that has recorded nothing yet.
pub fn new_builder() -> (builder: Box<LyonBuilder>)
    ensures
        builder@ == Seq::<PathCommand>::empty(),
{
    Box::new(LyonBuilder { commands: Vec::new() })
}

impl LyonBuilder {
    /// Closes the current subpath.
    pub fn close(&mut self)
        ensures
            final(self)@ == old(self)@.push(PathCommand::Close),
    {
        self.commands.push(PathCommand::Close);
    }

    /// Starts a new subpath at `to`.
    pub fn move_to(&mut self, to: &LyonPoint)
        ensures
            final(self)@ == old(self)@.push(PathCommand::MoveTo(*to)),
    {
        self.commands.push(PathCommand::MoveTo(*to));
    }

    /// Appends a straight segment that ends at `to`.
    pub fn line_to(&mut self, to: &LyonPoint)
        ensures
            final(self)@ == old(self)@.push(PathCommand::LineTo(*to)),
    {
        self.commands.push(PathCommand::LineTo(*to));
    }

    /// Appends a quadratic curve with control point `ctrl` that ends at `to`.
    pub fn quadratic_bezier_to(&mut self, ctrl: &LyonPoint, to: &LyonPoint)
        ensures
            final(self)@ == old(self)@.push(PathCommand::QuadraticTo(*ctrl, *to)),
    {
        self.commands.push(PathCommand::QuadraticTo(*ctrl, *to));
    }

    /// Appends a cubic curve with control points `ctrl1` and `ctrl2` that ends
    /// at `to`.
    pub fn cubic_bezier_to(&mut self, ctrl1: &LyonPoint, ctrl2: &LyonPoint, to: &LyonPoint)
        ensures
            final(self)@ == old(self)@.push(PathCommand::CubicTo(*ctrl1, *ctrl2, *to)),
    {
        self.commands.push(PathCommand::CubicTo(*ctrl1, *ctrl2, *to));
    }

    /// Starts a new subpath at the current point displaced by `to`.
    pub fn relative_move_to(&mut self, to: LyonVector)
        ensures
            final(self)@ == old(self)@.push(PathCommand::RelativeMoveTo(to)),
    {
        self.commands.push(PathCommand::RelativeMoveTo(to));
    }

    /// Ends the recording and hands the commands over as a path.
    pub fn build(self) -> (path: Path)
        ensures
            path@ == self@,
    {
        Path { commands: self.commands }
    }
}

impl Path {
    /// The number of commands.
    pub fn len(&self) -> (n: usize)
        ensures
            n == self@.len(),
    {
        self.commands.len()
    }

    /// The commands, in the order in which they were issued.
    pub fn commands(&self) -> (commands: &Vec<PathCommand>)
        ensures
            commands@ == self@,
    {
        &self.commands
    }

    /// Whether every command carries finite coordinates only.
    pub fn finite(&self) -> (r: bool)
        ensures
            r == all_finite(self@),
    {
        let mut i: usize = 0;
        while i < self.commands.len()
            invariant
                i <= self.commands.len(),
                forall|j: int| 0 <= j < i ==> (#[trigger] self.commands@[j]).is_finite(),
            decreases self.commands.len() - i,
        {
            if !self.commands[i].finite() {
                return false;
            }
            i = i + 1;
        }
        true
    }
}

} // verus!
