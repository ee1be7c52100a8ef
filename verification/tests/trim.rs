use plane_core::trim::TrimItem;

const ALL: [TrimItem; 5] = [
    TrimItem::Elevator,
    TrimItem::LeftAileron,
    TrimItem::RightAileron,
    TrimItem::RollRange,
    TrimItem::ElevatorRange,
];

#[test]
fn next_walks_the_order_and_wraps() {
    assert_eq!(TrimItem::Elevator.next_trim(), TrimItem::LeftAileron);
    assert_eq!(TrimItem::LeftAileron.next_trim(), TrimItem::RightAileron);
    assert_eq!(TrimItem::RightAileron.next_trim(), TrimItem::RollRange);
    assert_eq!(TrimItem::RollRange.next_trim(), TrimItem::ElevatorRange);
    assert_eq!(TrimItem::ElevatorRange.next_trim(), TrimItem::Elevator);
}

#[test]
fn previous_walks_back_and_wraps() {
    assert_eq!(TrimItem::Elevator.previous_trim(), TrimItem::ElevatorRange);
    assert_eq!(TrimItem::ElevatorRange.previous_trim(), TrimItem::RollRange);
    assert_eq!(TrimItem::LeftAileron.previous_trim(), TrimItem::Elevator);
}

#[test]
fn next_and_previous_undo_each_other() {
    for item in ALL {
        assert_eq!(item.next_trim().previous_trim(), item);
        assert_eq!(item.previous_trim().next_trim(), item);
        let mut x = item;
        for _ in 0..5 {
            x = x.next_trim();
        }
        assert_eq!(x, item);
    }
}

#[test]
fn repr_round_trips() {
    for (i, item) in ALL.iter().enumerate() {
        assert_eq!(item.repr() as usize, i);
        assert_eq!(TrimItem::from_repr(i as u8), Some(*item));
    }
    assert_eq!(TrimItem::from_repr(5), None);
    assert_eq!(TrimItem::default(), TrimItem::Elevator);
    assert_eq!(TrimItem::first(), TrimItem::Elevator);
}
