//! Characters: the embodied inhabitants of a world.

use vstd::prelude::*;
use vstd::std_specs::cmp::PartialEqSpecImpl;
use vstd::std_specs::convert::FromSpecImpl;
use crate::area::{Object, RoomId, WorldId};
use crate::game::PlayerId;

verus! {

/// Identifier of a character. Like room ids, character ids are local to the
/// world that registers the character.
#[derive(Debug, PartialEq, Eq, Hash, Clone, Copy, Structural)]
pub struct CharacterId(pub u32);

impl From<u32> for CharacterId {
    fn from(value: u32) -> (id: CharacterId) {
        CharacterId(value)
    }
}

impl FromSpecImpl<u32> for CharacterId {
    open spec fn obeys_from_spec() -> bool {
        true
    }

    open spec fn from_spec(value: u32) -> CharacterId {
        CharacterId(value)
    }
}

/// A handle to a registered character: the world that registers it, and its
/// id there. The handle owns nothing; it is resolved through the game.
#[derive(Debug, PartialEq, Eq, Hash, Clone, Copy, Structural)]
pub struct CharacterRef {
    pub world: WorldId,
    pub id: CharacterId,
}

/// The mathematical value of a [`Character`].
pub struct CharacterView {
    pub id: CharacterId,
    pub owner: Option<PlayerId>,
    pub current_room: Option<RoomId>,
}

impl CharacterView {
    /// A character in the void: owned by nobody, placed nowhere.
    pub open spec fn unplaced(id: CharacterId) -> CharacterView {
        CharacterView { id, owner: None, current_room: None }
    }

    /// The same character under another owner, or under none.
    pub open spec fn with_owner(self, owner: Option<PlayerId>) -> CharacterView {
        CharacterView { owner, ..self }
    }

    /// The same character in another room, or in none.
    pub open spec fn with_room(self, room: Option<RoomId>) -> CharacterView {
        CharacterView { current_room: room, ..self }
    }

    /// Control and placement are independent: a change of owner is read back
    /// and leaves the room alone, a change of room is read back and leaves
    /// the owner alone, and neither touches the identity.
    pub proof fn lemma_owner_and_room_independent(
        self,
        owner: Option<PlayerId>,
        room: Option<RoomId>,
    )
        ensures
            self.with_owner(owner).owner == owner,
            self.with_owner(owner).current_room == self.current_room,
            self.with_owner(owner).id == self.id,
            self.with_room(room).current_room == room,
            self.with_room(room).owner == self.owner,
            self.with_room(room).id == self.id,
            self.with_owner(owner).with_room(room) == self.with_room(room).with_owner(owner),
    {
    }
}

/// An embodied, placeable entity that a player may control.
#[derive(Debug)]
pub struct Character {
    id: CharacterId,
    owner: Option<PlayerId>,
    current_room: Option<RoomId>,
}

impl View for Character {
    type V = CharacterView;

    closed spec fn view(&self) -> CharacterView {
        CharacterView { id: self.id, owner: self.owner, current_room: self.current_room }
    }
}

impl Character {
    /// Creates a character in the void.
    pub fn new(id: CharacterId) -> (character: Character)
        ensures
            character@ == CharacterView::unplaced(id),
    {
        Character { id, owner: None, current_room: None }
    }

    pub fn get_id(&self) -> (id: CharacterId)
        ensures
            id == self@.id,
    {
        self.id
    }

    /// The player that controls this character, if any.
    pub fn get_owner(&self) -> (owner: Option<PlayerId>)
        ensures
            owner == self@.owner,
    {
        self.owner
    }

    pub fn set_owner(&mut self, owner: PlayerId)
        ensures
            final(self)@ == old(self)@.with_owner(Some(owner)),
    {
        self.owner = Some(owner);
    }

    pub fn unset_owner(&mut self)
        ensures
            final(self)@ == old(self)@.with_owner(None),
    {
        self.owner = None;
    }

    /// The room this character stands in, if it stands anywhere.
    pub fn get_current_room(&self) -> (room: Option<RoomId>)
        ensures
            room == self@.current_room,
    {
        self.current_room
    }

    pub fn set_current_room(&mut self, start_room: RoomId)
        ensures
            final(self)@ == old(self)@.with_room(Some(start_room)),
    {
        self.current_room = Some(start_room);
    }

    pub fn unset_current_room(&mut self)
        ensures
            final(self)@ == old(self)@.with_room(None),
    {
        self.current_room = None;
    }
}

impl Object for Character {
    open spec fn number(&self) -> u32 {
        self@.id.0
    }

    fn get_id(&self) -> (id: u32) {
        self.id.0
    }
}

/// Two characters are the same character when their ids agree.
impl PartialEq for Character {
    fn eq(&self, other: &Character) -> (same: bool) {
        self.id == other.id
    }
}

impl PartialEqSpecImpl for Character {
    open spec fn obeys_eq_spec() -> bool {
        true
    }

    open spec fn eq_spec(&self, other: &Character) -> bool {
        self@.id == other@.id
    }
}

impl Eq for Character {}

} // verus!
