use mudgame::action::GameAction;
use mudgame::area::{MoveDirection, Room, RoomExit, RoomId, World, WorldId};
use mudgame::game::{Game, Player, PlayerId};
use mudgame::socium::{Character, CharacterId, CharacterRef};

fn exits_of(room: &Room) -> Vec<RoomExit> {
    vec![
        room.get_exit(&MoveDirection::North),
        room.get_exit(&MoveDirection::South),
        room.get_exit(&MoveDirection::West),
        room.get_exit(&MoveDirection::East),
        room.get_exit(&MoveDirection::Up),
        room.get_exit(&MoveDirection::Down),
    ]
}

fn filled_game() -> (Game, WorldId, PlayerId) {
    let mut game = Game::new();
    let world = game.add_world(World::new(WorldId::from(1), String::from("First world")));
    game.fill_world(world);
    let player = game.add_player(Player::new(PlayerId::from(21)));
    (game, world, player)
}

fn room_of(game: &Game, who: CharacterRef) -> Option<RoomId> {
    game.get_character(who).unwrap().get_current_room()
}

#[test]
fn a_new_game_is_empty() {
    let game = Game::new();
    assert!(game.get_world(WorldId::from(1)).is_none());
    assert!(game.get_player(PlayerId::from(1)).is_none());
    assert_eq!(game.get_actions_queue().len(), 0);
    assert!(game.can_process_actions_queue());
}

#[test]
fn worlds_and_players_are_found_under_their_ids() {
    let mut game = Game::new();
    let world = game.add_world(World::new(WorldId::from(3), String::from("Third")));
    let player = game.add_player(Player::new(PlayerId::from(5)));
    assert_eq!(world, WorldId::from(3));
    assert_eq!(player, PlayerId::from(5));
    assert_eq!(game.get_world(world).unwrap().get_id(), WorldId::from(3));
    assert_eq!(game.get_player(player).unwrap().get_id(), PlayerId::from(5));
    assert!(game.get_world(WorldId::from(5)).is_none());
    assert!(game.get_player(PlayerId::from(3)).is_none());
}

#[test]
fn a_filled_world_has_the_two_starter_rooms() {
    let (game, world, _) = filled_game();
    let world = game.get_world(world).unwrap();
    assert_eq!(world.get_rooms().len(), 2);
    let first = world.get_any_room();
    assert_eq!(first.get_id(), RoomId::from(1));
    assert_eq!(first.get_world(), WorldId::from(1));
    assert_eq!(
        exits_of(first),
        vec![
            RoomExit::Pathway(RoomId::from(2)),
            RoomExit::Pathway(RoomId::from(2)),
            RoomExit::DeadEnd,
            RoomExit::Pathway(RoomId::from(1)),
            RoomExit::DeadEnd,
            RoomExit::DeadEnd,
        ]
    );
    let second = world.get_room(RoomId::from(2)).unwrap();
    assert_eq!(second.get_id(), RoomId::from(2));
    assert_eq!(second.get_world(), WorldId::from(1));
    assert_eq!(
        exits_of(second),
        vec![
            RoomExit::Pathway(RoomId::from(1)),
            RoomExit::Pathway(RoomId::from(1)),
            RoomExit::Pathway(RoomId::from(2)),
            RoomExit::DeadEnd,
            RoomExit::DeadEnd,
            RoomExit::DeadEnd,
        ]
    );
    assert_eq!(first.describe(), "Room { id: 1, exits (NSWEUD): 2-2-#-1-#-# }");
    assert_eq!(second.describe(), "Room { id: 2, exits (NSWEUD): 1-1-2-#-#-# }");
}

#[test]
fn filling_appends_to_the_rooms_already_there() {
    let mut game = Game::new();
    let mut world = World::new(WorldId::from(1), String::from("w"));
    world.add_room(Room::new_in_void(RoomId::from(9), WorldId::from(1)));
    let world = game.add_world(world);
    game.fill_world(world);
    let world = game.get_world(world).unwrap();
    assert_eq!(world.get_rooms().len(), 3);
    assert_eq!(world.get_any_room().get_id(), RoomId::from(9));
    assert!(world.get_room(RoomId::from(1)).is_some());
    assert!(world.get_room(RoomId::from(2)).is_some());
}

#[test]
fn setting_a_players_character_links_both_sides() {
    let mut game = Game::new();
    let mut world = World::new(WorldId::from(1), String::from("First world"));
    world.add_room(Room::new_in_void(RoomId::from(1), WorldId::from(1)));
    world.add_room(Room::new_in_void(RoomId::from(2), WorldId::from(1)));
    let mut character = Character::new(CharacterId::from(11));
    character.set_current_room(RoomId::from(2));
    world.add_character(character);
    let world = game.add_world(world);
    let player = game.add_player(Player::new(PlayerId::from(21)));

    game.set_player_character(world, player, CharacterId::from(11));
    let who = CharacterRef { world, id: CharacterId::from(11) };
    assert_eq!(game.get_player(player).unwrap().get_main_char(), Some(who));
    let character = game.get_world(world).unwrap().get_character(who.id).unwrap();
    assert_eq!(character.get_owner(), Some(player));
    assert_eq!(character.get_current_room(), Some(RoomId::from(2)));
}

#[test]
fn unsetting_a_players_character_frees_both_sides() {
    let (mut game, world, player) = filled_game();
    game.spawn_player_character(world, player, Character::new(CharacterId::from(11)));
    game.unset_player_character(world, player, CharacterId::from(11));
    assert_eq!(game.get_player(player).unwrap().get_main_char(), None);
    let character = game.get_world(world).unwrap().get_character(CharacterId::from(11)).unwrap();
    assert_eq!(character.get_owner(), None);
    assert_eq!(character.get_current_room(), Some(RoomId::from(1)));
}

#[test]
fn spawning_for_a_player_places_and_links() {
    let (mut game, world, player) = filled_game();
    game.spawn_player_character(world, player, Character::new(CharacterId::from(11)));
    let who = CharacterRef { world, id: CharacterId::from(11) };
    assert_eq!(game.get_player(player).unwrap().get_main_char(), Some(who));
    let character = game.get_world(world).unwrap().get_character(who.id).unwrap();
    assert_eq!(character.get_owner(), Some(player));
    assert_eq!(character.get_current_room(), Some(RoomId::from(1)));
}

#[test]
fn linking_leaves_other_players_and_characters_alone() {
    let (mut game, world, player) = filled_game();
    let other = game.add_player(Player::new(PlayerId::from(22)));
    game.spawn_player_character(world, player, Character::new(CharacterId::from(11)));
    game.spawn_player_character(world, other, Character::new(CharacterId::from(12)));
    game.unset_player_character(world, player, CharacterId::from(11));
    let theirs = CharacterRef { world, id: CharacterId::from(12) };
    assert_eq!(game.get_player(other).unwrap().get_main_char(), Some(theirs));
    let character = game.get_world(world).unwrap().get_character(theirs.id).unwrap();
    assert_eq!(character.get_owner(), Some(other));
}

#[test]
fn queueing_changes_nothing_until_the_queue_is_drained() {
    let (mut game, world, player) = filled_game();
    game.spawn_player_character(world, player, Character::new(CharacterId::from(11)));
    let who = CharacterRef { world, id: CharacterId::from(11) };
    let walk = GameAction::WalkFromTo { who, from: RoomId::from(1), to: RoomId::from(2) };
    game.queue_action(walk);
    assert_eq!(game.get_actions_queue().len(), 1);
    assert_eq!(game.get_actions_queue()[0], walk);
    assert_eq!(room_of(&game, who), Some(RoomId::from(1)));
    assert!(game.can_process_actions_queue());
    game.process_actions_queue();
    assert_eq!(game.get_actions_queue().len(), 0);
    assert_eq!(room_of(&game, who), Some(RoomId::from(2)));
}

#[test]
fn queued_actions_take_effect_in_the_order_they_were_queued() {
    let (mut game, world, player) = filled_game();
    game.spawn_player_character(world, player, Character::new(CharacterId::from(11)));
    let who = CharacterRef { world, id: CharacterId::from(11) };
    let there = GameAction::WalkFromTo { who, from: RoomId::from(1), to: RoomId::from(2) };
    let back = GameAction::WalkFromTo { who, from: RoomId::from(2), to: RoomId::from(1) };

    game.queue_action(there);
    game.queue_action(back);
    assert_eq!(game.get_actions_queue()[0], there);
    assert_eq!(game.get_actions_queue()[1], back);
    game.process_actions_queue();
    assert_eq!(room_of(&game, who), Some(RoomId::from(1)));

    game.queue_action(back);
    game.queue_action(there);
    game.process_actions_queue();
    assert_eq!(room_of(&game, who), Some(RoomId::from(2)));
}

#[test]
fn a_walk_moves_only_its_own_character() {
    let (mut game, world, player) = filled_game();
    let other = game.add_player(Player::new(PlayerId::from(22)));
    game.spawn_player_character(world, player, Character::new(CharacterId::from(11)));
    game.spawn_player_character(world, other, Character::new(CharacterId::from(12)));
    let who = CharacterRef { world, id: CharacterId::from(11) };
    let bystander = CharacterRef { world, id: CharacterId::from(12) };
    game.queue_action(GameAction::WalkFromTo { who, from: RoomId::from(1), to: RoomId::from(2) });
    game.process_actions_queue();
    assert_eq!(room_of(&game, who), Some(RoomId::from(2)));
    assert_eq!(room_of(&game, bystander), Some(RoomId::from(1)));
    let moved = game.get_world(world).unwrap().get_character(who.id).unwrap();
    assert_eq!(moved.get_owner(), Some(player));
    assert_eq!(game.get_world(world).unwrap().get_rooms().len(), 2);
}

#[test]
fn draining_twice_moves_once() {
    let (mut game, world, player) = filled_game();
    game.spawn_player_character(world, player, Character::new(CharacterId::from(11)));
    let who = CharacterRef { world, id: CharacterId::from(11) };
    game.queue_action(GameAction::WalkFromTo { who, from: RoomId::from(1), to: RoomId::from(2) });
    game.process_actions_queue();
    game.process_actions_queue();
    assert_eq!(room_of(&game, who), Some(RoomId::from(2)));
    assert_eq!(game.get_actions_queue().len(), 0);
}

#[test]
fn a_queue_that_names_a_lost_character_cannot_be_drained() {
    let (mut game, world, _) = filled_game();
    let nobody = CharacterRef { world, id: CharacterId::from(99) };
    game.queue_action(GameAction::WalkFromTo {
        who: nobody,
        from: RoomId::from(1),
        to: RoomId::from(2),
    });
    assert!(!game.can_process_actions_queue());

    let mut elsewhere = Game::new();
    let lost = CharacterRef { world: WorldId::from(8), id: CharacterId::from(11) };
    elsewhere.queue_action(GameAction::WalkFromTo {
        who: lost,
        from: RoomId::from(1),
        to: RoomId::from(2),
    });
    assert!(!elsewhere.can_process_actions_queue());
}

#[test]
fn a_character_handle_is_resolved_through_the_game() {
    let (mut game, world, player) = filled_game();
    game.spawn_player_character(world, player, Character::new(CharacterId::from(11)));
    let who = CharacterRef { world, id: CharacterId::from(11) };
    assert_eq!(game.get_character(who).unwrap().get_id(), CharacterId::from(11));
    let unknown = CharacterRef { world, id: CharacterId::from(12) };
    assert!(game.get_character(unknown).is_none());
    let elsewhere = CharacterRef { world: WorldId::from(2), id: CharacterId::from(11) };
    assert!(game.get_character(elsewhere).is_none());
}
