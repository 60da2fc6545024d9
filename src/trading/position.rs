//! Trading positions: long, short, out of the market, or holding whatever
//! was held before.

use vstd::prelude::*;

verus! {

/// The intended holding for a day. Long and short carry an absolute share
/// count, never a change in shares.
#[derive(Clone, Copy, Debug, PartialEq, Eq, Structural)]
pub enum Position {
    /// Hold this many shares.
    Long(u64),
    /// Be short this many shares.
    Short(u64),
    /// Hold nothing.
    Out,
    /// Keep the position held before.
    Hold,
}

impl Position {
    /// Long and short positions are entries.
    pub open spec fn entry(self) -> bool {
        self is Long || self is Short
    }

    /// Long and short are opposite each other; nothing else is.
    pub open spec fn opposite(self, other: Position) -> bool {
        (self is Long && other is Short) || (self is Short && other is Long)
    }

    /// Going out from an entry, or from an entry to its opposite, is an
    /// exit.
    pub open spec fn exit_from(self, other: Position) -> bool {
        (self is Out && other.entry()) || self.opposite(other)
    }

    /// The position in force once this trade is made after `previous`:
    /// `Hold` carries `previous` over, anything else replaces it.
    pub open spec fn resolved(self, previous: Position) -> Position {
        if self is Hold {
            previous
        } else {
            self
        }
    }

    /// Signed share count of a resolved position: positive when long,
    /// negative when short, zero when out.
    pub open spec fn signed_shares(self) -> int {
        match self {
            Position::Long(s) => s as int,
            Position::Short(s) => -(s as int),
            _ => 0,
        }
    }

    /// True if the position is a long or short position.
    pub fn is_entry(&self) -> (r: bool)
        ensures
            r == self.entry(),
    {
        match self {
            Position::Long(_) => true,
            Position::Short(_) => true,
            Position::Out => false,
            Position::Hold => false,
        }
    }

    /// True if `self` is an exit from `other`: out after an entry, or the
    /// opposite entry.
    pub fn is_exit_from(&self, other: Position) -> (r: bool)
        ensures
            r == self.exit_from(other),
    {
        match (self, other) {
            (Position::Out, p) => p.is_entry(),
            (Position::Long(_), Position::Short(_)) => true,
            (Position::Short(_), Position::Long(_)) => true,
            _ => false,
        }
    }

    /// Long and short are opposite, all others are not.
    pub fn is_opposite(&self, other: Position) -> (r: bool)
        ensures
            r == self.opposite(other),
    {
        match (self, other) {
            (Position::Long(_), Position::Short(_)) => true,
            (Position::Short(_), Position::Long(_)) => true,
            _ => false,
        }
    }

    /// The position in force after making this trade when `previous` was
    /// in force.
    pub fn resolve(&self, previous: Position) -> (r: Position)
        ensures
            r == self.resolved(previous),
    {
        match self {
            Position::Hold => previous,
            _ => *self,
        }
    }
}

} // verus!
