use mudgame::area::{RoomId, WorldId};
use mudgame::game::{Player, PlayerId};
use mudgame::socium::{Character, CharacterId, CharacterRef};

#[test]
fn a_new_character_is_in_the_void() {
    let character = Character::new(CharacterId::from(11));
    assert_eq!(character.get_id(), CharacterId::from(11));
    assert_eq!(character.get_owner(), None);
    assert_eq!(character.get_current_room(), None);
}

#[test]
fn an_owner_that_was_set_is_read_back() {
    let mut character = Character::new(CharacterId::from(11));
    character.set_owner(PlayerId::from(21));
    assert_eq!(character.get_owner(), Some(PlayerId::from(21)));
    character.set_owner(PlayerId::from(22));
    assert_eq!(character.get_owner(), Some(PlayerId::from(22)));
    character.unset_owner();
    assert_eq!(character.get_owner(), None);
}

#[test]
fn owner_and_room_do_not_touch_each_other() {
    let mut character = Character::new(CharacterId::from(11));
    character.set_current_room(RoomId::from(1));
    character.set_owner(PlayerId::from(21));
    assert_eq!(character.get_owner(), Some(PlayerId::from(21)));
    assert_eq!(character.get_current_room(), Some(RoomId::from(1)));
    character.unset_owner();
    assert_eq!(character.get_owner(), None);
    assert_eq!(character.get_current_room(), Some(RoomId::from(1)));
    character.set_owner(PlayerId::from(21));
    character.unset_current_room();
    assert_eq!(character.get_owner(), Some(PlayerId::from(21)));
    assert_eq!(character.get_current_room(), None);
    character.set_current_room(RoomId::from(2));
    assert_eq!(character.get_owner(), Some(PlayerId::from(21)));
    assert_eq!(character.get_current_room(), Some(RoomId::from(2)));
    assert_eq!(character.get_id(), CharacterId::from(11));
}

#[test]
fn characters_are_equal_when_their_ids_are() {
    let mut a = Character::new(CharacterId::from(1));
    a.set_owner(PlayerId::from(5));
    let b = Character::new(CharacterId::from(1));
    let c = Character::new(CharacterId::from(2));
    assert!(a == b);
    assert!(a != c);
}

#[test]
fn a_new_player_has_no_character() {
    let player = Player::new(PlayerId::from(21));
    assert_eq!(player.get_id(), PlayerId::from(21));
    assert_eq!(player.get_main_char(), None);
}

#[test]
fn a_main_character_that_was_set_is_read_back() {
    let mut player = Player::new(PlayerId::from(21));
    let who = CharacterRef { world: WorldId::from(1), id: CharacterId::from(11) };
    player.set_main_char(who);
    assert_eq!(player.get_main_char(), Some(who));
    player.unset_main_char();
    assert_eq!(player.get_main_char(), None);
    assert_eq!(player.get_id(), PlayerId::from(21));
}

#[test]
fn players_are_equal_when_their_ids_are() {
    let mut a = Player::new(PlayerId::from(1));
    a.set_main_char(CharacterRef { world: WorldId::from(1), id: CharacterId::from(11) });
    let b = Player::new(PlayerId::from(1));
    let c = Player::new(PlayerId::from(2));
    assert!(a == b);
    assert!(a != c);
}

#[test]
fn character_and_player_ids_are_equal_by_value() {
    assert_eq!(CharacterId::from(3), CharacterId::from(3));
    assert_ne!(CharacterId::from(3), CharacterId::from(4));
    assert_eq!(PlayerId::from(3), PlayerId::from(3));
    assert_ne!(PlayerId::from(3), PlayerId::from(4));
}
