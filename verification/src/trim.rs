//! Which trim value the pilot is editing, and how the selection cycles.

use vstd::prelude::*;

verus! {

/// The trim values, in the order in which the pilot steps through them.
#[derive(Debug, Clone, Copy, PartialEq, Eq, Structural)]
pub enum TrimItem {
    Elevator,
    LeftAileron,
    RightAileron,
    RollRange,
    ElevatorRange,
}

/// How many trim values there are.
pub const TRIM_ITEM_COUNT: u8 = 5;

impl TrimItem {
    /// The position of the item in the order, from 0.
    pub open spec fn spec_index(self) -> nat {
        match self {
            TrimItem::Elevator => 0,
            TrimItem::LeftAileron => 1,
            TrimItem::RightAileron => 2,
            TrimItem::RollRange => 3,
            TrimItem::ElevatorRange => 4,
        }
    }

    pub open spec fn spec_from_repr(v: u8) -> Option<TrimItem> {
        if v == 0 {
            Some(TrimItem::Elevator)
        } else if v == 1 {
            Some(TrimItem::LeftAileron)
        } else if v == 2 {
            Some(TrimItem::RightAileron)
        } else if v == 3 {
            Some(TrimItem::RollRange)
        } else if v == 4 {
            Some(TrimItem::ElevatorRange)
        } else {
            None
        }
    }

    /// The position of the item in the order, from 0.
    pub fn repr(self) -> (v: u8)
        ensures
            v == self.spec_index(),
            v < TRIM_ITEM_COUNT,
    {
        match self {
            TrimItem::Elevator => 0,
            TrimItem::LeftAileron => 1,
            TrimItem::RightAileron => 2,
            TrimItem::RollRange => 3,
            TrimItem::ElevatorRange => 4,
        }
    }

    /// The item at a position, if there is one.
    pub fn from_repr(v: u8) -> (item: Option<TrimItem>)
        ensures
            item == Self::spec_from_repr(v),
            item matches Some(i) ==> i.spec_index() == v,
            item is Some <==> v < TRIM_ITEM_COUNT,
    {
        match v {
            0 => Some(TrimItem::Elevator),
            1 => Some(TrimItem::LeftAileron),
            2 => Some(TrimItem::RightAileron),
            3 => Some(TrimItem::RollRange),
            4 => Some(TrimItem::ElevatorRange),
            _ => None,
        }
    }

    /// The first item, the one edited when nothing else was chosen.
    pub fn first() -> (item: TrimItem)
        ensures
            item.spec_index() == 0,
    {
        TrimItem::Elevator
    }

    /// The next item, wrapping from the last back to the first.
    pub fn next_trim(self) -> (item: TrimItem)
        ensures
            item.spec_index() == (self.spec_index() + 1) % (TRIM_ITEM_COUNT as nat),
            item == next_spec(self),
    {
        let v = self.repr();
        match TrimItem::from_repr(v + 1) {
            Some(item) => item,
            None => TrimItem::first(),
        }
    }

    /// The previous item, wrapping from the first to the last.
    pub fn previous_trim(self) -> (item: TrimItem)
        ensures
            item.spec_index() == (self.spec_index() + 4) % (TRIM_ITEM_COUNT as nat),
            item == previous_spec(self),
    {
        let v = self.repr();
        match v.checked_sub(1) {
            Some(p) => match TrimItem::from_repr(p) {
                Some(item) => item,
                None => TrimItem::ElevatorRange,
            },
            None => TrimItem::ElevatorRange,
        }
    }
}

impl Default for TrimItem {
    fn default() -> (item: TrimItem)
        ensures
            item == TrimItem::Elevator,
    {
        TrimItem::Elevator
    }
}

/// Items are told apart by their position.
pub proof fn lemma_index_injective(a: TrimItem, b: TrimItem)
    ensures
        a.spec_index() == b.spec_index() <==> a == b,
{
}

/// Stepping back undoes stepping forward, and stepping forward undoes stepping back.
pub proof fn lemma_next_previous_inverse(item: TrimItem)
    ensures
        next_spec(previous_spec(item)) == item,
        previous_spec(next_spec(item)) == item,
{
}

/// Stepping forward once per item comes back to where it started.
pub proof fn lemma_next_cycles(item: TrimItem)
    ensures
        next_spec(next_spec(next_spec(next_spec(next_spec(item))))) == item,
        next_spec(item) != item,
{
}

/// The item after `item`, as `next_trim` computes it.
pub open spec fn next_spec(item: TrimItem) -> TrimItem {
    match item {
        TrimItem::Elevator => TrimItem::LeftAileron,
        TrimItem::LeftAileron => TrimItem::RightAileron,
        TrimItem::RightAileron => TrimItem::RollRange,
        TrimItem::RollRange => TrimItem::ElevatorRange,
        TrimItem::ElevatorRange => TrimItem::Elevator,
    }
}

/// The item before `item`, as `previous_trim` computes it.
pub open spec fn previous_spec(item: TrimItem) -> TrimItem {
    match item {
        TrimItem::Elevator => TrimItem::ElevatorRange,
        TrimItem::LeftAileron => TrimItem::Elevator,
        TrimItem::RightAileron => TrimItem::LeftAileron,
        TrimItem::RollRange => TrimItem::RightAileron,
        TrimItem::ElevatorRange => TrimItem::RollRange,
    }
}

} // verus!
