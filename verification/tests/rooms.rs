use mudgame::area::{MoveDirection, Room, RoomExit, RoomId, WorldId};

fn all_directions() -> Vec<MoveDirection> {
    vec![
        MoveDirection::North,
        MoveDirection::South,
        MoveDirection::East,
        MoveDirection::West,
        MoveDirection::Up,
        MoveDirection::Down,
    ]
}

#[test]
fn a_new_room_has_only_dead_ends() {
    let room = Room::new_in_void(RoomId::from(1), WorldId::from(7));
    assert_eq!(room.get_id(), RoomId::from(1));
    assert_eq!(room.get_world(), WorldId::from(7));
    for direction in all_directions() {
        assert_eq!(room.get_exit(&direction), RoomExit::DeadEnd);
    }
}

#[test]
fn an_exit_that_was_set_is_read_back_in_every_direction() {
    for direction in all_directions() {
        let mut room = Room::new_in_void(RoomId::from(1), WorldId::from(1));
        room.set_exit(&direction, RoomId::from(2));
        assert_eq!(room.get_exit(&direction), RoomExit::Pathway(RoomId::from(2)));
        for other in all_directions() {
            if other != direction {
                assert_eq!(room.get_exit(&other), RoomExit::DeadEnd);
            }
        }
        assert_eq!(room.get_id(), RoomId::from(1));
        assert_eq!(room.get_world(), WorldId::from(1));
    }
}

#[test]
fn an_exit_that_was_closed_is_a_dead_end_again() {
    for direction in all_directions() {
        let mut room = Room::new_in_void(RoomId::from(1), WorldId::from(1));
        room.set_exit(&direction, RoomId::from(2));
        room.set_dead_end(&direction);
        assert_eq!(room.get_exit(&direction), RoomExit::DeadEnd);
    }
}

#[test]
fn setting_an_exit_replaces_the_one_before() {
    let mut room = Room::new_in_void(RoomId::from(1), WorldId::from(1));
    room.set_exit(&MoveDirection::East, RoomId::from(2));
    room.set_exit(&MoveDirection::East, RoomId::from(3));
    assert_eq!(room.get_exit(&MoveDirection::East), RoomExit::Pathway(RoomId::from(3)));
}

#[test]
fn exits_are_one_way() {
    let mut a = Room::new_in_void(RoomId::from(1), WorldId::from(1));
    let b = Room::new_in_void(RoomId::from(2), WorldId::from(1));
    a.set_exit(&MoveDirection::East, b.get_id());
    assert_eq!(a.get_exit(&MoveDirection::East), RoomExit::Pathway(RoomId::from(2)));
    assert_eq!(b.get_exit(&MoveDirection::West), RoomExit::DeadEnd);
}

#[test]
fn a_room_may_lead_to_itself() {
    let mut room = Room::new_in_void(RoomId::from(5), WorldId::from(1));
    let id = room.get_id();
    room.set_exit(&MoveDirection::Up, id);
    assert_eq!(room.get_exit(&MoveDirection::Up), RoomExit::Pathway(RoomId::from(5)));
}

#[test]
fn rooms_are_equal_when_their_ids_are() {
    let mut a = Room::new_in_void(RoomId::from(1), WorldId::from(1));
    a.set_exit(&MoveDirection::North, RoomId::from(9));
    let b = Room::new_in_void(RoomId::from(1), WorldId::from(2));
    let c = Room::new_in_void(RoomId::from(2), WorldId::from(1));
    assert!(a == b);
    assert!(a != c);
}

#[test]
fn ids_are_equal_by_value() {
    assert_eq!(RoomId::from(3), RoomId::from(3));
    assert_ne!(RoomId::from(3), RoomId::from(4));
    assert_eq!(WorldId::from(3), WorldId::from(3));
    assert_ne!(WorldId::from(3), WorldId::from(4));
    let copy = RoomId::from(3);
    let same = copy;
    assert_eq!(copy, same);
}

#[test]
fn a_room_id_is_written_in_decimal() {
    assert_eq!(RoomId::from(0).to_string(), "0");
    assert_eq!(RoomId::from(7).to_string(), "7");
    assert_eq!(RoomId::from(10).to_string(), "10");
    assert_eq!(RoomId::from(1234567890).to_string(), "1234567890");
    assert_eq!(RoomId::from(u32::MAX).to_string(), "4294967295");
}

#[test]
fn a_room_without_exits_is_described() {
    let room = Room::new_in_void(RoomId::from(3), WorldId::from(1));
    assert_eq!(room.describe(), "Room { id: 3, exits (NSWEUD): #-#-#-#-#-# }");
}

#[test]
fn a_room_is_described_with_its_exits_in_order() {
    let mut room = Room::new_in_void(RoomId::from(1), WorldId::from(1));
    room.set_exit(&MoveDirection::North, RoomId::from(2));
    room.set_exit(&MoveDirection::South, RoomId::from(30));
    room.set_exit(&MoveDirection::West, RoomId::from(400));
    room.set_exit(&MoveDirection::East, RoomId::from(5000));
    room.set_exit(&MoveDirection::Up, RoomId::from(60000));
    room.set_exit(&MoveDirection::Down, RoomId::from(700000));
    assert_eq!(
        room.describe(),
        "Room { id: 1, exits (NSWEUD): 2-30-400-5000-60000-700000 }"
    );
}
