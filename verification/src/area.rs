//! Rooms, their exits, and the world that owns them.
//!
//! Rooms refer to each other, and the room graph may be cyclic, so an exit
//! never owns its destination: it holds the destination's [`RoomId`], which
//! is resolved through the owning [`World`] when the exit is walked.

use std::collections::HashMap;
use vstd::pervasive::unreached;
use vstd::prelude::*;
use vstd::string::*;
use vstd::std_specs::cmp::PartialEqSpecImpl;
use vstd::std_specs::convert::FromSpecImpl;
use crate::game::PlayerId;
use crate::socium::{Character, CharacterId, CharacterView};
use crate::text::{decimal, to_decimal};

verus! {

/// Identifier of a world.
#[derive(Debug, PartialEq, Eq, Hash, Clone, Copy, Structural)]
pub struct WorldId(pub u32);

impl From<u32> for WorldId {
    fn from(value: u32) -> (id: WorldId) {
        WorldId(value)
    }
}

impl FromSpecImpl<u32> for WorldId {
    open spec fn obeys_from_spec() -> bool {
        true
    }

    open spec fn from_spec(value: u32) -> WorldId {
        WorldId(value)
    }
}

/// Identifier of a room. Room ids are local to a world: two worlds may both
/// own a room 1, so a room id is always resolved through a world.
#[derive(Debug, PartialEq, Eq, Hash, Clone, Copy, Structural)]
pub struct RoomId(pub u32);

impl From<u32> for RoomId {
    fn from(value: u32) -> (id: RoomId) {
        RoomId(value)
    }
}

impl FromSpecImpl<u32> for RoomId {
    open spec fn obeys_from_spec() -> bool {
        true
    }

    open spec fn from_spec(value: u32) -> RoomId {
        RoomId(value)
    }
}

impl RoomId {
    /// The id written in decimal.
    pub fn to_string(&self) -> (text: String)
        ensures
            text@ == decimal(self.0 as nat),
    {
        to_decimal(self.0)
    }
}

/// The six directions a room can be left in.
#[derive(Debug, PartialEq, Eq, Hash, Clone, Copy, Structural)]
pub enum MoveDirection {
    North,
    South,
    East,
    West,
    Up,
    Down,
}

/// What lies behind one direction of a room.
#[derive(Debug, PartialEq, Eq, Hash, Clone, Copy, Structural)]
pub enum RoomExit {
    /// Nothing: the room cannot be left this way.
    DeadEnd,
    /// A one-way connection to the room with this id in the same world.
    Pathway(RoomId),
}

impl RoomExit {
    /// How an exit is written: `#` for a dead end, the destination's id for
    /// a pathway.
    pub open spec fn caption(self) -> Seq<char> {
        match self {
            RoomExit::DeadEnd => "#"@,
            RoomExit::Pathway(to) => decimal(to.0 as nat),
        }
    }

    fn write_caption(&self, text: &mut String)
        ensures
            final(text)@ == old(text)@ + self.caption(),
    {
        match self {
            RoomExit::DeadEnd => text.append("#"),
            RoomExit::Pathway(to) => text.append(to.to_string().as_str()),
        }
    }
}

/// The mathematical value of a [`Room`].
pub struct RoomView {
    pub id: RoomId,
    pub world: WorldId,
    pub north: RoomExit,
    pub south: RoomExit,
    pub west: RoomExit,
    pub east: RoomExit,
    pub up: RoomExit,
    pub down: RoomExit,
}

impl RoomView {
    /// A room that nothing leads out of.
    pub open spec fn in_void(id: RoomId, world: WorldId) -> RoomView {
        RoomView {
            id,
            world,
            north: RoomExit::DeadEnd,
            south: RoomExit::DeadEnd,
            west: RoomExit::DeadEnd,
            east: RoomExit::DeadEnd,
            up: RoomExit::DeadEnd,
            down: RoomExit::DeadEnd,
        }
    }

    /// The exit in one direction.
    pub open spec fn exit(self, direction: MoveDirection) -> RoomExit {
        match direction {
            MoveDirection::North => self.north,
            MoveDirection::South => self.south,
            MoveDirection::East => self.east,
            MoveDirection::West => self.west,
            MoveDirection::Up => self.up,
            MoveDirection::Down => self.down,
        }
    }

    /// The same room with one exit replaced.
    pub open spec fn with_exit(self, direction: MoveDirection, exit: RoomExit) -> RoomView {
        match direction {
            MoveDirection::North => RoomView { north: exit, ..self },
            MoveDirection::South => RoomView { south: exit, ..self },
            MoveDirection::East => RoomView { east: exit, ..self },
            MoveDirection::West => RoomView { west: exit, ..self },
            MoveDirection::Up => RoomView { up: exit, ..self },
            MoveDirection::Down => RoomView { down: exit, ..self },
        }
    }

    /// How a room is written: its id, then its exits in the order north,
    /// south, west, east, up, down.
    pub open spec fn description(self) -> Seq<char> {
        "Room { id: "@ + decimal(self.id.0 as nat) + ", exits (NSWEUD): "@ + self.north.caption()
            + "-"@ + self.south.caption() + "-"@ + self.west.caption() + "-"@
            + self.east.caption() + "-"@ + self.up.caption() + "-"@ + self.down.caption() + " }"@
    }

    /// Replacing an exit is read back in that direction, and changes nothing
    /// else: not the room's identity, not its world, and not the exit of any
    /// other direction. In particular exits are one-way, since no other room
    /// is touched.
    pub proof fn lemma_with_exit(self, direction: MoveDirection, exit: RoomExit)
        ensures
            self.with_exit(direction, exit).exit(direction) == exit,
            self.with_exit(direction, exit).id == self.id,
            self.with_exit(direction, exit).world == self.world,
            forall|other: MoveDirection|
                other != direction ==> #[trigger] self.with_exit(direction, exit).exit(other)
                    == self.exit(other),
    {
    }
}

/// A navigable location with six exit slots, owned by exactly one world.
#[derive(Debug)]
pub struct Room {
    id: RoomId,
    world: WorldId,
    north_exit: RoomExit,
    south_exit: RoomExit,
    west_exit: RoomExit,
    east_exit: RoomExit,
    up_exit: RoomExit,
    down_exit: RoomExit,
}

impl View for Room {
    type V = RoomView;

    closed spec fn view(&self) -> RoomView {
        RoomView {
            id: self.id,
            world: self.world,
            north: self.north_exit,
            south: self.south_exit,
            west: self.west_exit,
            east: self.east_exit,
            up: self.up_exit,
            down: self.down_exit,
        }
    }
}

impl Room {
    /// Creates a room of `world` with every exit a dead end. The room is not
    /// yet part of the world's area.
    pub fn new_in_void(id: RoomId, world: WorldId) -> (room: Room)
        ensures
            room@ == RoomView::in_void(id, world),
    {
        Room {
            id,
            world,
            north_exit: RoomExit::DeadEnd,
            south_exit: RoomExit::DeadEnd,
            east_exit: RoomExit::DeadEnd,
            west_exit: RoomExit::DeadEnd,
            up_exit: RoomExit::DeadEnd,
            down_exit: RoomExit::DeadEnd,
        }
    }

    pub fn get_id(&self) -> (id: RoomId)
        ensures
            id == self@.id,
    {
        self.id
    }

    /// The world this room belongs to.
    pub fn get_world(&self) -> (world: WorldId)
        ensures
            world == self@.world,
    {
        self.world
    }

    pub fn get_exit(&self, direction: &MoveDirection) -> (exit: RoomExit)
        ensures
            exit == self@.exit(*direction),
    {
        match direction {
            MoveDirection::North => self.north_exit,
            MoveDirection::South => self.south_exit,
            MoveDirection::East => self.east_exit,
            MoveDirection::West => self.west_exit,
            MoveDirection::Up => self.up_exit,
            MoveDirection::Down => self.down_exit,
        }
    }

    /// Installs a connection to `to_room`, replacing whatever the direction
    /// held before.
    pub fn set_exit(&mut self, direction: &MoveDirection, to_room: RoomId)
        ensures
            final(self)@ == old(self)@.with_exit(*direction, RoomExit::Pathway(to_room)),
    {
        self.put_exit(direction, RoomExit::Pathway(to_room));
    }

    /// Closes the direction.
    pub fn set_dead_end(&mut self, direction: &MoveDirection)
        ensures
            final(self)@ == old(self)@.with_exit(*direction, RoomExit::DeadEnd),
    {
        self.put_exit(direction, RoomExit::DeadEnd);
    }

    /// Writes the room on one line, as in
    /// `Room { id: 1, exits (NSWEUD): 2-2-#-1-#-# }`.
    pub fn describe(&self) -> (text: String)
        ensures
            text@ == self@.description(),
    {
        let mut text = String::from_str("Room { id: ");
        text.append(self.id.to_string().as_str());
        text.append(", exits (NSWEUD): ");
        self.north_exit.write_caption(&mut text);
        text.append("-");
        self.south_exit.write_caption(&mut text);
        text.append("-");
        self.west_exit.write_caption(&mut text);
        text.append("-");
        self.east_exit.write_caption(&mut text);
        text.append("-");
        self.up_exit.write_caption(&mut text);
        text.append("-");
        self.down_exit.write_caption(&mut text);
        text.append(" }");
        text
    }

    fn put_exit(&mut self, direction: &MoveDirection, exit: RoomExit)
        ensures
            final(self)@ == old(self)@.with_exit(*direction, exit),
    {
        match direction {
            MoveDirection::North => self.north_exit = exit,
            MoveDirection::South => self.south_exit = exit,
            MoveDirection::East => self.east_exit = exit,
            MoveDirection::West => self.west_exit = exit,
            MoveDirection::Up => self.up_exit = exit,
            MoveDirection::Down => self.down_exit = exit,
        }
    }
}

/// Two rooms are the same room when their ids agree.
impl PartialEq for Room {
    fn eq(&self, other: &Room) -> (same: bool) {
        self.id == other.id
    }
}

impl PartialEqSpecImpl for Room {
    open spec fn obeys_eq_spec() -> bool {
        true
    }

    open spec fn eq_spec(&self, other: &Room) -> bool {
        self@.id == other@.id
    }
}

impl Eq for Room {}

/// Anything that is told apart by a number. The number alone does not say
/// what kind of thing it numbers: a world, a room, a character and a player
/// may all carry the same one.
pub trait Object {
    /// The number behind the object's id.
    spec fn number(&self) -> u32;

    fn get_id(&self) -> (id: u32)
        ensures
            id == self.number(),
    ;
}

impl Object for Room {
    open spec fn number(&self) -> u32 {
        self@.id.0
    }

    fn get_id(&self) -> (id: u32) {
        self.id.0
    }
}

/// A marker for the things that live in a world.
pub trait Entity {}

/// Something that can be taken from one room and put into another.
pub trait Teleportable {
    /// Takes `self` from `from` to `to`, and says whether that was done.
    fn move_from_to(&self, from: &Room, to: &Room) -> bool;
}

/// The first room of `rooms` that carries `id`, if there is one.
pub open spec fn find_room(rooms: Seq<RoomView>, id: RoomId) -> Option<RoomView>
    decreases rooms.len(),
{
    if rooms.len() == 0 {
        None
    } else if rooms[0].id == id {
        Some(rooms[0])
    } else {
        find_room(rooms.drop_first(), id)
    }
}

/// A search finds the room at the least position that carries the id, and
/// finds nothing only where no room carries the id.
pub proof fn lemma_find_room_finds(rooms: Seq<RoomView>, id: RoomId)
    ensures
        match find_room(rooms, id) {
            Some(room) => exists|i: int|
                {
                    &&& 0 <= i < rooms.len()
                    &&& #[trigger] rooms[i] == room
                    &&& room.id == id
                    &&& forall|j: int| 0 <= j < i ==> (#[trigger] rooms[j]).id != id
                },
            None => forall|i: int| 0 <= i < rooms.len() ==> (#[trigger] rooms[i]).id != id,
        },
    decreases rooms.len(),
{
    if rooms.len() > 0 {
        if rooms[0].id == id {
            assert(rooms[0] == rooms[0]);
        } else {
            let rest = rooms.drop_first();
            lemma_find_room_finds(rest, id);
            match find_room(rest, id) {
                Some(room) => {
                    let i = choose|i: int|
                        {
                            &&& 0 <= i < rest.len()
                            &&& #[trigger] rest[i] == room
                            &&& room.id == id
                            &&& forall|j: int| 0 <= j < i ==> (#[trigger] rest[j]).id != id
                        };
                    assert(rooms[i + 1] == room);
                    assert forall|j: int| 0 <= j < i + 1 implies (#[trigger] rooms[j]).id
                        != id by {
                        if j > 0 {
                            assert(rest[j - 1] == rooms[j]);
                        }
                    }
                },
                None => {
                    assert forall|i: int| 0 <= i < rooms.len() implies (#[trigger] rooms[i]).id
                        != id by {
                        if i > 0 {
                            assert(rest[i - 1] == rooms[i]);
                        }
                    }
                },
            }
        }
    }
}

/// A room added at the end is found under its id unless an earlier room
/// carries the same id, and every search that found a room before still
/// finds that room.
pub proof fn lemma_find_room_push(rooms: Seq<RoomView>, room: RoomView, id: RoomId)
    ensures
        find_room(rooms.push(room), id) == match find_room(rooms, id) {
            Some(found) => Some(found),
            None => if room.id == id {
                Some(room)
            } else {
                None
            },
        },
    decreases rooms.len(),
{
    let longer = rooms.push(room);
    if rooms.len() == 0 {
        assert(longer[0] == room);
        assert(longer.drop_first() =~= Seq::<RoomView>::empty());
        assert(find_room(longer.drop_first(), id) is None);
    } else {
        assert(longer[0] == rooms[0]);
        if rooms[0].id != id {
            assert(longer.drop_first() =~= rooms.drop_first().push(room));
            lemma_find_room_push(rooms.drop_first(), room, id);
        }
    }
}

/// The mathematical value of a [`World`]: its rooms in the order they were
/// added, and its characters by id.
pub struct WorldView {
    pub id: WorldId,
    pub name: Seq<char>,
    pub characters: Map<CharacterId, CharacterView>,
    pub rooms: Seq<RoomView>,
}

impl WorldView {
    /// A world without rooms or characters.
    pub open spec fn empty(id: WorldId, name: Seq<char>) -> WorldView {
        WorldView { id, name, characters: Map::empty(), rooms: Seq::empty() }
    }

    /// The room a room id stands for in this world.
    pub open spec fn room(self, id: RoomId) -> Option<RoomView> {
        find_room(self.rooms, id)
    }

    /// The room behind an exit: none behind a dead end, and none behind a
    /// pathway whose destination this world does not own.
    pub open spec fn behind(self, exit: RoomExit) -> Option<RoomView> {
        match exit {
            RoomExit::DeadEnd => None,
            RoomExit::Pathway(to) => self.room(to),
        }
    }

    /// This world with one more room at the end of its area.
    pub open spec fn add_room(self, room: RoomView) -> WorldView {
        WorldView { rooms: self.rooms.push(room), ..self }
    }

    /// This world with `character` registered under its id.
    pub open spec fn add_character(self, character: CharacterView) -> WorldView {
        WorldView { characters: self.characters.insert(character.id, character), ..self }
    }

    /// This world with `character` placed in the first room and registered.
    pub open spec fn spawn_character(self, character: CharacterView) -> WorldView {
        self.add_character(character.with_room(Some(self.rooms[0].id)))
    }

    /// This world with the owner of a registered character replaced.
    pub open spec fn set_character_owner(
        self,
        id: CharacterId,
        owner: Option<PlayerId>,
    ) -> WorldView {
        WorldView {
            characters: self.characters.insert(id, self.characters[id].with_owner(owner)),
            ..self
        }
    }

    /// This world with the room of a registered character replaced.
    pub open spec fn set_character_room(self, id: CharacterId, room: Option<RoomId>) -> WorldView {
        WorldView {
            characters: self.characters.insert(id, self.characters[id].with_room(room)),
            ..self
        }
    }

    /// Whether every reference inside this world holds: each room points
    /// back at this world, each character is registered under its own id,
    /// and each character that stands somewhere stands in a room that this
    /// world owns.
    pub open spec fn consistent(self) -> bool {
        &&& forall|i: int| 0 <= i < self.rooms.len() ==> (#[trigger] self.rooms[i]).world == self.id
        &&& forall|id: CharacterId| #[trigger]
            self.characters.contains_key(id) ==> self.characters[id].id == id
        &&& forall|id: CharacterId| #[trigger]
            self.characters.contains_key(id) ==> self.placed_well(self.characters[id])
    }

    /// Whether `character` stands nowhere or in a room that this world owns.
    pub open spec fn placed_well(self, character: CharacterView) -> bool {
        character.current_room matches Some(room) ==> self.room(room) is Some
    }

    /// An exit that was set to a room of this world is read back as a
    /// pathway, and the pathway leads to that room. An exit that was closed
    /// is read back as a dead end, and leads nowhere.
    pub proof fn lemma_exit_set_then_read(
        self,
        room: RoomView,
        direction: MoveDirection,
        to: RoomView,
    )
        requires
            self.room(to.id) == Some(to),
        ensures
            room.with_exit(direction, RoomExit::Pathway(to.id)).exit(direction)
                == RoomExit::Pathway(to.id),
            self.behind(room.with_exit(direction, RoomExit::Pathway(to.id)).exit(direction))
                == Some(to),
            room.with_exit(direction, RoomExit::DeadEnd).exit(direction) == RoomExit::DeadEnd,
            self.behind(room.with_exit(direction, RoomExit::DeadEnd).exit(direction)) is None,
    {
    }

    /// A spawned character stands in the first room of the area, whatever
    /// the world holds besides, and spawning changes no room.
    pub proof fn lemma_spawn_in_first_room(self, character: CharacterView)
        requires
            self.rooms.len() > 0,
        ensures
            self.spawn_character(character).characters.contains_key(character.id),
            self.spawn_character(character).characters[character.id] == character.with_room(
                Some(self.rooms[0].id),
            ),
            self.spawn_character(character).rooms == self.rooms,
    {
    }

    /// Rooms added later do not change where characters are spawned: the
    /// first room stays first.
    pub proof fn lemma_first_room_stays_first(self, room: RoomView, character: CharacterView)
        requires
            self.rooms.len() > 0,
        ensures
            self.add_room(room).rooms[0] == self.rooms[0],
            self.add_room(room).spawn_character(character).characters[character.id]
                == self.spawn_character(character).characters[character.id],
    {
    }

    /// Two characters with different ids can be spawned in either order:
    /// the world is the same afterwards, and both stand in the first room.
    pub proof fn lemma_spawn_order(self, first: CharacterView, second: CharacterView)
        requires
            self.rooms.len() > 0,
            first.id != second.id,
        ensures
            self.spawn_character(first).spawn_character(second) == self.spawn_character(
                second,
            ).spawn_character(first),
            self.spawn_character(first).spawn_character(second).characters[first.id].current_room
                == Some(self.rooms[0].id),
            self.spawn_character(first).spawn_character(second).characters[second.id].current_room
                == Some(self.rooms[0].id),
    {
        assert(self.spawn_character(first).spawn_character(second).characters
            =~= self.spawn_character(second).spawn_character(first).characters);
    }

    /// A world without rooms or characters is consistent.
    pub proof fn lemma_empty_consistent(id: WorldId, name: Seq<char>)
        ensures
            WorldView::empty(id, name).consistent(),
    {
    }

    /// Adding a room that points back at this world keeps the world
    /// consistent.
    pub proof fn lemma_add_room_consistent(self, room: RoomView)
        requires
            self.consistent(),
            room.world == self.id,
        ensures
            self.add_room(room).consistent(),
    {
        let after = self.add_room(room);
        assert forall|id: CharacterId| #[trigger]
            after.characters.contains_key(id) implies after.placed_well(after.characters[id]) by {
            assert(self.placed_well(self.characters[id]));
            if let Some(at) = self.characters[id].current_room {
                lemma_find_room_push(self.rooms, room, at);
            }
        }
    }

    /// Registering a character keeps the world consistent if the character
    /// stands nowhere or in a room of this world.
    pub proof fn lemma_add_character_consistent(self, character: CharacterView)
        requires
            self.consistent(),
            self.placed_well(character),
        ensures
            self.add_character(character).consistent(),
    {
    }

    /// Spawning a character keeps the world consistent.
    pub proof fn lemma_spawn_character_consistent(self, character: CharacterView)
        requires
            self.consistent(),
            self.rooms.len() > 0,
        ensures
            self.spawn_character(character).consistent(),
    {
    }

    /// A change of owner keeps the world consistent.
    pub proof fn lemma_set_character_owner_consistent(
        self,
        id: CharacterId,
        owner: Option<PlayerId>,
    )
        requires
            self.consistent(),
            self.characters.contains_key(id),
        ensures
            self.set_character_owner(id, owner).consistent(),
    {
        let after = self.set_character_owner(id, owner);
        assert forall|other: CharacterId| #[trigger]
            after.characters.contains_key(other) implies after.placed_well(
            after.characters[other],
        ) by {
            assert(self.characters.contains_key(other));
            assert(self.placed_well(self.characters[other]));
        }
    }

    /// A move to nowhere or to a room of this world keeps the world
    /// consistent.
    pub proof fn lemma_set_character_room_consistent(self, id: CharacterId, room: Option<RoomId>)
        requires
            self.consistent(),
            self.characters.contains_key(id),
            room matches Some(to) ==> self.room(to) is Some,
        ensures
            self.set_character_room(id, room).consistent(),
    {
        let after = self.set_character_room(id, room);
        assert forall|other: CharacterId| #[trigger]
            after.characters.contains_key(other) implies after.placed_well(
            after.characters[other],
        ) by {
            assert(self.characters.contains_key(other));
            assert(self.placed_well(self.characters[other]));
        }
    }
}

/// A self-contained area: the rooms it owns, in the order they were added,
/// and the characters registered in it.
#[derive(Debug)]
pub struct World {
    id: WorldId,
    name: String,
    characters: HashMap<u32, Character>,
    area: Vec<Room>,
}

impl View for World {
    type V = WorldView;

    closed spec fn view(&self) -> WorldView {
        WorldView {
            id: self.id,
            name: self.name@,
            characters: Map::new(
                |id: CharacterId| self.characters@.contains_key(id.0),
                |id: CharacterId| self.characters@[id.0]@,
            ),
            rooms: Seq::new(self.area@.len(), |i: int| self.area@[i]@),
        }
    }
}

impl Object for World {
    open spec fn number(&self) -> u32 {
        self@.id.0
    }

    fn get_id(&self) -> (id: u32) {
        self.id.0
    }
}

impl World {
    /// Creates a world without rooms or characters.
    pub fn new(id: WorldId, name: String) -> (world: World)
        ensures
            world@ == WorldView::empty(id, name@),
            world@.consistent(),
    {
        let world = World { id, name, characters: HashMap::new(), area: Vec::new() };
        assert(world@.characters =~= Map::empty());
        assert(world@.rooms =~= Seq::empty());
        world
    }

    pub fn get_id(&self) -> (id: WorldId)
        ensures
            id == self@.id,
    {
        self.id
    }

    /// Registers `char` under its id and returns that id.
    ///
    /// Registering an id a second time is a mistake of the caller, not a way
    /// to replace a character: the precondition rules it out, and a caller
    /// that was not verified is stopped rather than obeyed.
    pub fn add_character(&mut self, char: Character) -> (id: CharacterId)
        requires
            !old(self)@.characters.contains_key(char@.id),
        ensures
            id == char@.id,
            final(self)@ == old(self)@.add_character(char@),
            old(self)@.consistent() && old(self)@.placed_well(char@) ==> final(self)@.consistent(),
    {
        let id = char.get_id();
        if self.characters.contains_key(&id.0) {
            unreached::<()>();
        }
        self.characters.insert(id.0, char);
        assert(self@.characters =~= old(self)@.characters.insert(id, char@));
        assert(self@.rooms =~= old(self)@.rooms);
        id
    }

    /// Looks a character up. An unknown id is an ordinary outcome.
    pub fn get_character(&self, id: CharacterId) -> (found: Option<&Character>)
        ensures
            match found {
                Some(character) => self@.characters.contains_key(id) && character@
                    == self@.characters[id],
                None => !self@.characters.contains_key(id),
            },
    {
        self.characters.get(&id.0)
    }

    /// Appends `room` to the area. Room ids are chosen by the caller and are
    /// not checked against the rooms already owned.
    pub fn add_room(&mut self, room: Room)
        ensures
            final(self)@ == old(self)@.add_room(room@),
            old(self)@.consistent() && room@.world == old(self)@.id ==> final(self)@.consistent(),
    {
        self.area.push(room);
        assert(self@.rooms =~= old(self)@.rooms.push(room@));
        assert(self@.characters =~= old(self)@.characters);
        proof {
            if old(self)@.consistent() && room@.world == old(self)@.id {
                old(self)@.lemma_add_room_consistent(room@);
            }
        }
    }

    pub fn get_name(&self) -> (name: &str)
        ensures
            name@ == self@.name,
    {
        self.name.as_str()
    }

    /// The rooms of the area, in the order they were added.
    pub fn get_rooms(&self) -> (rooms: &Vec<Room>)
        ensures
            rooms@.len() == self@.rooms.len(),
            forall|i: int| 0 <= i < rooms@.len() ==> (#[trigger] rooms@[i])@ == self@.rooms[i],
    {
        &self.area
    }

    /// The first room of the area.
    pub fn get_any_room(&self) -> (room: &Room)
        requires
            self@.rooms.len() > 0,
        ensures
            room@ == self@.rooms[0],
    {
        &self.area[0]
    }

    /// Resolves a room id: the first room of the area that carries it.
    pub fn get_room(&self, id: RoomId) -> (found: Option<&Room>)
        ensures
            match found {
                Some(room) => self@.room(id) == Some(room@) && room@.id == id,
                None => self@.room(id) is None,
            },
    {
        proof {
            lemma_find_room_finds(self@.rooms, id);
        }
        let mut i: usize = 0;
        assert(self@.rooms.skip(0) =~= self@.rooms);
        while i < self.area.len()
            invariant
                i <= self.area.len(),
                find_room(self@.rooms, id) == find_room(self@.rooms.skip(i as int), id),
            decreases self.area.len() - i,
        {
            if self.area[i].id == id {
                return Some(&self.area[i]);
            }
            assert(self@.rooms.skip(i as int).drop_first() =~= self@.rooms.skip(i + 1));
            i += 1;
        }
        None
    }

    /// Places `char` in the first room of the area, registers it, and
    /// returns its id.
    pub fn spawn_character(&mut self, char: Character) -> (id: CharacterId)
        requires
            old(self)@.rooms.len() > 0,
            !old(self)@.characters.contains_key(char@.id),
        ensures
            id == char@.id,
            final(self)@ == old(self)@.spawn_character(char@),
            old(self)@.consistent() ==> final(self)@.consistent(),
    {
        let mut char = char;
        let spawn_room = self.get_any_room().get_id();
        char.set_current_room(spawn_room);
        self.add_character(char)
    }

    /// Hands a registered character to `owner`, or to nobody.
    pub fn set_character_owner(&mut self, id: CharacterId, owner: Option<PlayerId>)
        requires
            old(self)@.characters.contains_key(id),
        ensures
            final(self)@ == old(self)@.set_character_owner(id, owner),
            old(self)@.consistent() ==> final(self)@.consistent(),
    {
        let mut character = self.characters.remove(&id.0).unwrap();
        match owner {
            Some(player) => character.set_owner(player),
            None => character.unset_owner(),
        }
        self.characters.insert(id.0, character);
        assert(self@.characters =~= old(self)@.set_character_owner(id, owner).characters);
        assert(self@.rooms =~= old(self)@.rooms);
        proof {
            if old(self)@.consistent() {
                old(self)@.lemma_set_character_owner_consistent(id, owner);
            }
        }
    }

    /// Moves a registered character to `room`, or to nowhere.
    pub fn set_character_room(&mut self, id: CharacterId, room: Option<RoomId>)
        requires
            old(self)@.characters.contains_key(id),
        ensures
            final(self)@ == old(self)@.set_character_room(id, room),
            old(self)@.consistent() && (room matches Some(to) ==> old(self)@.room(to) is Some)
                ==> final(self)@.consistent(),
    {
        let mut character = self.characters.remove(&id.0).unwrap();
        match room {
            Some(to) => character.set_current_room(to),
            None => character.unset_current_room(),
        }
        self.characters.insert(id.0, character);
        assert(self@.characters =~= old(self)@.set_character_room(id, room).characters);
        assert(self@.rooms =~= old(self)@.rooms);
        proof {
            if old(self)@.consistent() && (room matches Some(to) ==> old(self)@.room(to) is Some) {
                old(self)@.lemma_set_character_room_consistent(id, room);
            }
        }
    }
}

} // verus!
