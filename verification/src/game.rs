//! Players, and the game that owns every world and every player.

use std::collections::{HashMap, VecDeque};
use vstd::prelude::*;
use vstd::std_specs::cmp::PartialEqSpecImpl;
use vstd::std_specs::convert::FromSpecImpl;
use crate::action::GameAction;
use crate::area::{
    lemma_find_room_push, MoveDirection, Object, Room, RoomExit, RoomId, RoomView, World, WorldId,
    WorldView,
};
use crate::socium::{Character, CharacterId, CharacterRef, CharacterView};

verus! {

/// Identifier of a player.
#[derive(Debug, PartialEq, Eq, Hash, Clone, Copy, Structural)]
pub struct PlayerId(pub u32);

impl From<u32> for PlayerId {
    fn from(value: u32) -> (id: PlayerId) {
        PlayerId(value)
    }
}

impl FromSpecImpl<u32> for PlayerId {
    open spec fn obeys_from_spec() -> bool {
        true
    }

    open spec fn from_spec(value: u32) -> PlayerId {
        PlayerId(value)
    }
}

/// The mathematical value of a [`Player`].
pub struct PlayerView {
    pub id: PlayerId,
    pub main_char: Option<CharacterRef>,
}

impl PlayerView {
    /// A player that controls no character.
    pub open spec fn bodiless(id: PlayerId) -> PlayerView {
        PlayerView { id, main_char: None }
    }

    /// The same player in control of another character, or of none.
    pub open spec fn with_main_char(self, main_char: Option<CharacterRef>) -> PlayerView {
        PlayerView { main_char, ..self }
    }
}

/// A controlling identity, in control of at most one character at a time.
#[derive(Debug)]
pub struct Player {
    id: PlayerId,
    main_char: Option<CharacterRef>,
}

impl View for Player {
    type V = PlayerView;

    closed spec fn view(&self) -> PlayerView {
        PlayerView { id: self.id, main_char: self.main_char }
    }
}

impl Player {
    /// Creates a player without a character.
    pub fn new(id: PlayerId) -> (player: Player)
        ensures
            player@ == PlayerView::bodiless(id),
    {
        Player { id, main_char: None }
    }

    pub fn get_id(&self) -> (id: PlayerId)
        ensures
            id == self@.id,
    {
        self.id
    }

    /// The character this player controls, if any.
    pub fn get_main_char(&self) -> (main_char: Option<CharacterRef>)
        ensures
            main_char == self@.main_char,
    {
        self.main_char
    }

    pub fn set_main_char(&mut self, char: CharacterRef)
        ensures
            final(self)@ == old(self)@.with_main_char(Some(char)),
    {
        self.main_char = Some(char);
    }

    pub fn unset_main_char(&mut self)
        ensures
            final(self)@ == old(self)@.with_main_char(None),
    {
        self.main_char = None;
    }
}

impl Object for Player {
    open spec fn number(&self) -> u32 {
        self@.id.0
    }

    fn get_id(&self) -> (id: u32) {
        self.id.0
    }
}

/// Two players are the same player when their ids agree.
impl PartialEq for Player {
    fn eq(&self, other: &Player) -> (same: bool) {
        self.id == other.id
    }
}

impl PartialEqSpecImpl for Player {
    open spec fn obeys_eq_spec() -> bool {
        true
    }

    open spec fn eq_spec(&self, other: &Player) -> bool {
        self@.id == other@.id
    }
}

impl Eq for Player {}

/// The first of the two rooms every freshly filled world starts with.
pub open spec fn first_starter_room(world: WorldId) -> RoomView {
    RoomView::in_void(RoomId(1), world)
        .with_exit(MoveDirection::North, RoomExit::Pathway(RoomId(2)))
        .with_exit(MoveDirection::South, RoomExit::Pathway(RoomId(2)))
        .with_exit(MoveDirection::East, RoomExit::Pathway(RoomId(1)))
}

/// The second of the two rooms every freshly filled world starts with.
pub open spec fn second_starter_room(world: WorldId) -> RoomView {
    RoomView::in_void(RoomId(2), world)
        .with_exit(MoveDirection::North, RoomExit::Pathway(RoomId(1)))
        .with_exit(MoveDirection::South, RoomExit::Pathway(RoomId(1)))
        .with_exit(MoveDirection::West, RoomExit::Pathway(RoomId(2)))
}

/// Whether the handle `who` leads to a character: its world exists and
/// registers a character under its id.
pub open spec fn registered(worlds: Map<WorldId, WorldView>, who: CharacterRef) -> bool {
    worlds.contains_key(who.world) && worlds[who.world].characters.contains_key(who.id)
}

/// The worlds after one action took effect. A walk puts the character in the
/// destination room, wherever it stood before; the rooms themselves keep no
/// record of who stands in them. An action whose character cannot be found
/// changes nothing.
pub open spec fn apply_action(
    worlds: Map<WorldId, WorldView>,
    action: GameAction,
) -> Map<WorldId, WorldView> {
    match action {
        GameAction::WalkFromTo { who, from, to } => {
            if registered(worlds, who) {
                worlds.insert(who.world, worlds[who.world].set_character_room(who.id, Some(to)))
            } else {
                worlds
            }
        },
    }
}

/// The worlds after a sequence of actions took effect, the first one first.
pub open spec fn apply_actions(
    worlds: Map<WorldId, WorldView>,
    actions: Seq<GameAction>,
) -> Map<WorldId, WorldView>
    decreases actions.len(),
{
    if actions.len() == 0 {
        worlds
    } else {
        apply_actions(apply_action(worlds, actions[0]), actions.drop_first())
    }
}

/// Whether every action of `actions` names a character that can be found.
pub open spec fn all_registered(worlds: Map<WorldId, WorldView>, actions: Seq<GameAction>) -> bool {
    forall|i: int|
        0 <= i < actions.len() ==> registered(worlds, (#[trigger] actions[i])->who)
}

/// Whether every world is stored under its own id and is consistent.
pub open spec fn worlds_consistent(worlds: Map<WorldId, WorldView>) -> bool {
    forall|id: WorldId| #[trigger]
        worlds.contains_key(id) ==> worlds[id].id == id && worlds[id].consistent()
}

/// Whether `action` can take effect: its character can be found, and both
/// rooms are rooms of the character's world.
pub open spec fn valid_action(worlds: Map<WorldId, WorldView>, action: GameAction) -> bool {
    match action {
        GameAction::WalkFromTo { who, from, to } => {
            &&& registered(worlds, who)
            &&& worlds[who.world].room(from) is Some
            &&& worlds[who.world].room(to) is Some
        },
    }
}

/// Whether every action of `actions` can take effect.
pub open spec fn all_valid(worlds: Map<WorldId, WorldView>, actions: Seq<GameAction>) -> bool {
    forall|i: int| 0 <= i < actions.len() ==> valid_action(worlds, #[trigger] actions[i])
}

/// An action that is queued after others takes effect after them: draining
/// a queue that ends in `last` is draining the queue before it and then
/// applying `last`.
pub proof fn lemma_apply_actions_push(
    worlds: Map<WorldId, WorldView>,
    actions: Seq<GameAction>,
    last: GameAction,
)
    ensures
        apply_actions(worlds, actions.push(last)) == apply_action(
            apply_actions(worlds, actions),
            last,
        ),
    decreases actions.len(),
{
    let longer = actions.push(last);
    if actions.len() == 0 {
        assert(longer[0] == last);
        assert(longer.drop_first() =~= Seq::<GameAction>::empty());
        assert(apply_actions(apply_action(worlds, last), longer.drop_first()) == apply_action(
            worlds,
            last,
        ));
    } else {
        assert(longer[0] == actions[0]);
        assert(longer.drop_first() =~= actions.drop_first().push(last));
        lemma_apply_actions_push(apply_action(worlds, actions[0]), actions.drop_first(), last);
    }
}

/// An action changes at most where one character stands: the same worlds
/// exist afterwards, with the same rooms and the same characters
/// registered.
pub proof fn lemma_apply_action_keeps(worlds: Map<WorldId, WorldView>, action: GameAction)
    ensures
        apply_action(worlds, action).dom() == worlds.dom(),
        forall|id: WorldId| #[trigger]
            worlds.contains_key(id) ==> {
                &&& apply_action(worlds, action)[id].id == worlds[id].id
                &&& apply_action(worlds, action)[id].name == worlds[id].name
                &&& apply_action(worlds, action)[id].rooms == worlds[id].rooms
                &&& apply_action(worlds, action)[id].characters.dom() == worlds[id].characters.dom()
            },
        forall|who: CharacterRef| #[trigger]
            registered(apply_action(worlds, action), who) == registered(worlds, who),
        worlds_consistent(worlds) && valid_action(worlds, action) ==> worlds_consistent(
            apply_action(worlds, action),
        ),
{
    let after = apply_action(worlds, action);
    let who = action->who;
    let to = action->to;
    if registered(worlds, who) {
        let world = worlds[who.world];
        let moved = world.set_character_room(who.id, Some(to));
        assert(after.dom() =~= worlds.dom());
        assert(moved.characters.dom() =~= world.characters.dom());
        if worlds_consistent(worlds) && valid_action(worlds, action) {
            world.lemma_set_character_room_consistent(who.id, Some(to));
        }
    }
}

/// Draining a queue changes at most where characters stand, and keeps
/// consistent worlds consistent if every action is valid.
pub proof fn lemma_apply_actions_keeps(worlds: Map<WorldId, WorldView>, actions: Seq<GameAction>)
    ensures
        apply_actions(worlds, actions).dom() == worlds.dom(),
        forall|id: WorldId| #[trigger]
            worlds.contains_key(id) ==> {
                &&& apply_actions(worlds, actions)[id].id == worlds[id].id
                &&& apply_actions(worlds, actions)[id].name == worlds[id].name
                &&& apply_actions(worlds, actions)[id].rooms == worlds[id].rooms
                &&& apply_actions(worlds, actions)[id].characters.dom()
                    == worlds[id].characters.dom()
            },
        forall|who: CharacterRef| #[trigger]
            registered(apply_actions(worlds, actions), who) == registered(worlds, who),
        worlds_consistent(worlds) && all_valid(worlds, actions) ==> worlds_consistent(
            apply_actions(worlds, actions),
        ),
    decreases actions.len(),
{
    if actions.len() > 0 {
        let next = apply_action(worlds, actions[0]);
        let rest = actions.drop_first();
        lemma_apply_action_keeps(worlds, actions[0]);
        lemma_apply_actions_keeps(next, rest);
        assert forall|who: CharacterRef| #[trigger]
            registered(apply_actions(worlds, actions), who) == registered(worlds, who) by {
            assert(registered(next, who) == registered(worlds, who));
        }
        if worlds_consistent(worlds) && all_valid(worlds, actions) {
            assert(valid_action(worlds, actions[0]));
            assert forall|i: int| 0 <= i < rest.len() implies valid_action(
                next,
                #[trigger] rest[i],
            ) by {
                assert(rest[i] == actions[i + 1]);
                assert(valid_action(worlds, actions[i + 1]));
                assert(registered(next, rest[i]->who) == registered(worlds, rest[i]->who));
            }
        }
    }
}

/// Draining a queue changes no owner and no identity: every character that
/// was registered is still registered, and is owned as before.
pub proof fn lemma_apply_actions_keep_owners(
    worlds: Map<WorldId, WorldView>,
    actions: Seq<GameAction>,
)
    ensures
        forall|who: CharacterRef| #[trigger]
            registered(apply_actions(worlds, actions), who) == registered(worlds, who),
        forall|who: CharacterRef| #[trigger]
            registered(worlds, who) ==> {
                &&& apply_actions(worlds, actions)[who.world].characters[who.id].owner
                    == worlds[who.world].characters[who.id].owner
                &&& apply_actions(worlds, actions)[who.world].characters[who.id].id
                    == worlds[who.world].characters[who.id].id
            },
    decreases actions.len(),
{
    if actions.len() > 0 {
        let next = apply_action(worlds, actions[0]);
        lemma_apply_action_keeps(worlds, actions[0]);
        lemma_apply_actions_keep_owners(next, actions.drop_first());
        assert forall|who: CharacterRef| #[trigger]
            registered(apply_actions(worlds, actions), who) == registered(worlds, who) by {
            assert(registered(next, who) == registered(worlds, who));
        }
        assert forall|who: CharacterRef| #[trigger] registered(worlds, who) implies {
            &&& apply_actions(worlds, actions)[who.world].characters[who.id].owner
                == worlds[who.world].characters[who.id].owner
            &&& apply_actions(worlds, actions)[who.world].characters[who.id].id
                == worlds[who.world].characters[who.id].id
        } by {
            assert(registered(next, who));
        }
    }
}

/// The mathematical value of a [`Game`]: its worlds and players by id, and
/// the pending actions, oldest first.
pub struct GameView {
    pub worlds: Map<WorldId, WorldView>,
    pub players: Map<PlayerId, PlayerView>,
    pub queue: Seq<GameAction>,
}

impl GameView {
    /// A game without worlds, players or pending actions.
    pub open spec fn empty() -> GameView {
        GameView { worlds: Map::empty(), players: Map::empty(), queue: Seq::empty() }
    }

    /// This game with `world` stored under its id.
    pub open spec fn add_world(self, world: WorldView) -> GameView {
        GameView { worlds: self.worlds.insert(world.id, world), ..self }
    }

    /// This game with `player` stored under its id.
    pub open spec fn add_player(self, player: PlayerView) -> GameView {
        GameView { players: self.players.insert(player.id, player), ..self }
    }

    /// This game with the two starter rooms appended to a world's area.
    pub open spec fn fill_world(self, world_id: WorldId) -> GameView {
        GameView {
            worlds: self.worlds.insert(
                world_id,
                self.worlds[world_id].add_room(first_starter_room(world_id)).add_room(
                    second_starter_room(world_id),
                ),
            ),
            ..self
        }
    }

    /// This game with player and character pointing at each other.
    pub open spec fn set_player_character(
        self,
        world_id: WorldId,
        player_id: PlayerId,
        char_id: CharacterId,
    ) -> GameView {
        GameView {
            worlds: self.worlds.insert(
                world_id,
                self.worlds[world_id].set_character_owner(char_id, Some(player_id)),
            ),
            players: self.players.insert(
                player_id,
                self.players[player_id].with_main_char(
                    Some(CharacterRef { world: world_id, id: char_id }),
                ),
            ),
            ..self
        }
    }

    /// This game with player and character pointing at nobody.
    pub open spec fn unset_player_character(
        self,
        world_id: WorldId,
        player_id: PlayerId,
        char_id: CharacterId,
    ) -> GameView {
        GameView {
            worlds: self.worlds.insert(
                world_id,
                self.worlds[world_id].set_character_owner(char_id, None),
            ),
            players: self.players.insert(player_id, self.players[player_id].with_main_char(None)),
            ..self
        }
    }

    /// This game with `character` spawned in a world and handed to a player.
    pub open spec fn spawn_player_character(
        self,
        world_id: WorldId,
        player_id: PlayerId,
        character: CharacterView,
    ) -> GameView {
        GameView {
            worlds: self.worlds.insert(
                world_id,
                self.worlds[world_id].spawn_character(character),
            ),
            ..self
        }.set_player_character(world_id, player_id, character.id)
    }

    /// This game with `action` at the back of the queue.
    pub open spec fn queue_action(self, action: GameAction) -> GameView {
        GameView { queue: self.queue.push(action), ..self }
    }

    /// This game after the queue was drained: every pending action took
    /// effect, oldest first, and none is pending any more.
    pub open spec fn process_actions_queue(self) -> GameView {
        GameView {
            worlds: apply_actions(self.worlds, self.queue),
            players: self.players,
            queue: Seq::empty(),
        }
    }

    /// The character behind a handle.
    pub open spec fn character(self, who: CharacterRef) -> Option<CharacterView> {
        if registered(self.worlds, who) {
            Some(self.worlds[who.world].characters[who.id])
        } else {
            None
        }
    }

    /// Whether `player` controls nobody or a character that can be found.
    pub open spec fn embodied_well(self, player: PlayerView) -> bool {
        player.main_char matches Some(who) ==> registered(self.worlds, who)
    }

    /// Whether every reference inside this game holds: each world and each
    /// player is stored under its own id, each world is consistent, each
    /// player's character can be found, and each pending action is valid.
    pub open spec fn consistent(self) -> bool {
        &&& worlds_consistent(self.worlds)
        &&& forall|id: PlayerId| #[trigger]
            self.players.contains_key(id) ==> self.players[id].id == id && self.embodied_well(
                self.players[id],
            )
        &&& all_valid(self.worlds, self.queue)
    }

    /// Whether control is mutual: the character a player controls can be
    /// found and is owned by that player, and the owner of a character is a
    /// player of this game who controls that character.
    pub open spec fn in_sync(self) -> bool {
        &&& forall|id: PlayerId| #[trigger]
            self.players.contains_key(id) ==> (self.players[id].main_char matches Some(who)
                ==> self.character(who) matches Some(character) && character.owner == Some(id))
        &&& forall|who: CharacterRef| #[trigger]
            registered(self.worlds, who) ==> (
            self.worlds[who.world].characters[who.id].owner matches Some(id)
                ==> self.players.contains_key(id) && self.players[id].main_char == Some(who))
    }

    /// Adding a world under an id that is not in use keeps control mutual
    /// if none of its characters has an owner yet.
    pub proof fn lemma_add_world_in_sync(self, world: WorldView)
        requires
            self.in_sync(),
            !self.worlds.contains_key(world.id),
            forall|id: CharacterId| #[trigger]
                world.characters.contains_key(id) ==> world.characters[id].owner is None,
        ensures
            self.add_world(world).in_sync(),
    {
        let after = self.add_world(world);
        assert forall|id: PlayerId| #[trigger] after.players.contains_key(id) implies (
        after.players[id].main_char matches Some(who) ==> after.character(who) matches Some(
            found,
        ) && found.owner == Some(id)) by {
            if let Some(who) = self.players[id].main_char {
                assert(registered(self.worlds, who));
            }
        }
        assert forall|who: CharacterRef| #[trigger]
            registered(after.worlds, who) implies (
        after.worlds[who.world].characters[who.id].owner matches Some(id)
            ==> after.players.contains_key(id) && after.players[id].main_char == Some(who)) by {
            if who.world != world.id {
                assert(registered(self.worlds, who));
            }
        }
    }

    /// Adding a player without a character under an id that is not in use
    /// keeps control mutual.
    pub proof fn lemma_add_player_in_sync(self, player: PlayerView)
        requires
            self.in_sync(),
            !self.players.contains_key(player.id),
            player.main_char is None,
        ensures
            self.add_player(player).in_sync(),
    {
        let after = self.add_player(player);
        assert forall|who: CharacterRef| #[trigger]
            registered(after.worlds, who) implies (
        after.worlds[who.world].characters[who.id].owner matches Some(id)
            ==> after.players.contains_key(id) && after.players[id].main_char == Some(who)) by {
            assert(registered(self.worlds, who));
        }
    }

    /// Putting a player without a character in control of a character
    /// without an owner keeps control mutual.
    pub proof fn lemma_set_player_character_in_sync(
        self,
        world_id: WorldId,
        player_id: PlayerId,
        char_id: CharacterId,
    )
        requires
            self.in_sync(),
            self.worlds.contains_key(world_id),
            self.worlds[world_id].characters.contains_key(char_id),
            self.players.contains_key(player_id),
            self.players[player_id].main_char is None,
            self.worlds[world_id].characters[char_id].owner is None,
        ensures
            self.set_player_character(world_id, player_id, char_id).in_sync(),
    {
        let after = self.set_player_character(world_id, player_id, char_id);
        let linked = CharacterRef { world: world_id, id: char_id };
        assert(registered(self.worlds, linked));
        assert forall|who: CharacterRef| #[trigger]
            registered(after.worlds, who) implies (
        after.worlds[who.world].characters[who.id].owner matches Some(id)
            ==> after.players.contains_key(id) && after.players[id].main_char == Some(who)) by {
            assert(registered(self.worlds, who));
        }
    }

    /// Taking a character away from the player that controls it keeps
    /// control mutual.
    pub proof fn lemma_unset_player_character_in_sync(
        self,
        world_id: WorldId,
        player_id: PlayerId,
        char_id: CharacterId,
    )
        requires
            self.in_sync(),
            self.worlds.contains_key(world_id),
            self.worlds[world_id].characters.contains_key(char_id),
            self.players.contains_key(player_id),
            self.players[player_id].main_char == Some(
                CharacterRef { world: world_id, id: char_id },
            ),
        ensures
            self.unset_player_character(world_id, player_id, char_id).in_sync(),
    {
        let after = self.unset_player_character(world_id, player_id, char_id);
        let linked = CharacterRef { world: world_id, id: char_id };
        assert(registered(self.worlds, linked));
        assert forall|who: CharacterRef| #[trigger]
            registered(after.worlds, who) implies (
        after.worlds[who.world].characters[who.id].owner matches Some(id)
            ==> after.players.contains_key(id) && after.players[id].main_char == Some(who)) by {
            assert(registered(self.worlds, who));
        }
    }

    /// Spawning a character that is not yet registered for a player
    /// without a character keeps control mutual.
    pub proof fn lemma_spawn_player_character_in_sync(
        self,
        world_id: WorldId,
        player_id: PlayerId,
        character: CharacterView,
    )
        requires
            self.in_sync(),
            self.worlds.contains_key(world_id),
            !self.worlds[world_id].characters.contains_key(character.id),
            self.players.contains_key(player_id),
            self.players[player_id].main_char is None,
        ensures
            self.spawn_player_character(world_id, player_id, character).in_sync(),
    {
        let after = self.spawn_player_character(world_id, player_id, character);
        let linked = CharacterRef { world: world_id, id: character.id };
        assert(!registered(self.worlds, linked));
        assert forall|id: PlayerId| #[trigger] after.players.contains_key(id) implies (
        after.players[id].main_char matches Some(who) ==> after.character(who) matches Some(
            found,
        ) && found.owner == Some(id)) by {
            if id != player_id {
                if let Some(who) = self.players[id].main_char {
                    assert(registered(self.worlds, who));
                }
            }
        }
        assert forall|who: CharacterRef| #[trigger]
            registered(after.worlds, who) implies (
        after.worlds[who.world].characters[who.id].owner matches Some(id)
            ==> after.players.contains_key(id) && after.players[id].main_char == Some(who)) by {
            if who != linked {
                assert(registered(self.worlds, who));
            }
        }
    }

    /// Filling a world keeps control mutual.
    pub proof fn lemma_fill_world_in_sync(self, world_id: WorldId)
        requires
            self.in_sync(),
            self.worlds.contains_key(world_id),
        ensures
            self.fill_world(world_id).in_sync(),
    {
        let filled = self.fill_world(world_id);
        assert forall|who: CharacterRef| #[trigger]
            registered(filled.worlds, who) implies (
        filled.worlds[who.world].characters[who.id].owner matches Some(id)
            ==> filled.players.contains_key(id) && filled.players[id].main_char == Some(who)) by {
            assert(registered(self.worlds, who));
        }
        assert forall|id: PlayerId| #[trigger] filled.players.contains_key(id) implies (
        filled.players[id].main_char matches Some(who) ==> filled.character(who) matches Some(
            found,
        ) && found.owner == Some(id)) by {
            if let Some(who) = self.players[id].main_char {
                assert(registered(self.worlds, who));
            }
        }
    }

    /// Draining the queue keeps control mutual: a walk changes where a
    /// character stands, not whose it is.
    pub proof fn lemma_process_actions_queue_in_sync(self)
        requires
            self.in_sync(),
        ensures
            self.process_actions_queue().in_sync(),
    {
        let drained = self.process_actions_queue();
        lemma_apply_actions_keep_owners(self.worlds, self.queue);
        assert forall|who: CharacterRef| #[trigger]
            registered(drained.worlds, who) implies (
        drained.worlds[who.world].characters[who.id].owner matches Some(id)
            ==> drained.players.contains_key(id) && drained.players[id].main_char == Some(
            who,
        )) by {
            assert(registered(self.worlds, who));
        }
        assert forall|id: PlayerId| #[trigger] drained.players.contains_key(id) implies (
        drained.players[id].main_char matches Some(who) ==> drained.character(
            who,
        ) matches Some(found) && found.owner == Some(id)) by {
            if let Some(who) = self.players[id].main_char {
                assert(registered(self.worlds, who));
            }
        }
    }

    /// Of two actions queued one after the other, the first takes effect
    /// first: draining the queue leaves the worlds as they are after the
    /// actions queued before took effect, then the first, then the second.
    pub proof fn lemma_queue_order(self, first: GameAction, second: GameAction)
        ensures
            self.queue_action(first).queue_action(second).process_actions_queue().worlds
                == apply_action(
                apply_action(apply_actions(self.worlds, self.queue), first),
                second,
            ),
            self.queue_action(first).queue_action(second).process_actions_queue().queue.len() == 0,
    {
        lemma_apply_actions_push(self.worlds, self.queue, first);
        lemma_apply_actions_push(self.worlds, self.queue.push(first), second);
    }

    /// Where two queued walks move the same character, the character ends
    /// in the room of the walk that was queued last.
    pub proof fn lemma_last_walk_wins(self, first: GameAction, second: GameAction)
        requires
            first->who == second->who,
            registered(self.worlds, first->who),
        ensures
            self.queue_action(first).queue_action(second).process_actions_queue().character(
                second->who,
            ) matches Some(character) && character.current_room == Some(second->to),
    {
        self.lemma_queue_order(first, second);
        lemma_apply_actions_keeps(self.worlds, self.queue);
        let drained = apply_actions(self.worlds, self.queue);
        assert(registered(drained, first->who));
        lemma_apply_action_keeps(drained, first);
        assert(registered(apply_action(drained, first), second->who));
    }

    /// After a player was put in control of a character, the player's main
    /// character is that character and the character's owner is that
    /// player; where the character stands is unchanged. After control was
    /// taken away, the player has no main character and the character no
    /// owner. Both sides change together, in either case.
    pub proof fn lemma_player_character_linked(
        self,
        world_id: WorldId,
        player_id: PlayerId,
        char_id: CharacterId,
    )
        requires
            self.worlds.contains_key(world_id),
            self.worlds[world_id].characters.contains_key(char_id),
            self.players.contains_key(player_id),
        ensures
            ({
                let who = CharacterRef { world: world_id, id: char_id };
                let linked = self.set_player_character(world_id, player_id, char_id);
                &&& linked.players.contains_key(player_id)
                &&& linked.players[player_id].main_char == Some(who)
                &&& linked.character(who) == Some(self.character(who)->0.with_owner(Some(player_id)))
            }),
            ({
                let who = CharacterRef { world: world_id, id: char_id };
                let free = self.unset_player_character(world_id, player_id, char_id);
                &&& free.players.contains_key(player_id)
                &&& free.players[player_id].main_char is None
                &&& free.character(who) == Some(self.character(who)->0.with_owner(None))
            }),
    {
    }

    /// A game without worlds, players or pending actions is consistent.
    pub proof fn lemma_empty_consistent()
        ensures
            GameView::empty().consistent(),
    {
    }

    /// Adding a consistent world under an id that is not in use keeps the
    /// game consistent.
    pub proof fn lemma_add_world_consistent(self, world: WorldView)
        requires
            self.consistent(),
            world.consistent(),
            !self.worlds.contains_key(world.id),
        ensures
            self.add_world(world).consistent(),
    {
        let after = self.add_world(world);
        assert forall|i: int| 0 <= i < after.queue.len() implies valid_action(
            after.worlds,
            #[trigger] after.queue[i],
        ) by {
            assert(valid_action(self.worlds, self.queue[i]));
        }
        assert forall|id: PlayerId| #[trigger] after.players.contains_key(id) implies (
        after.players[id].id == id && after.embodied_well(after.players[id])) by {
            assert(self.embodied_well(self.players[id]));
        }
    }

    /// Adding a player whose character, if it has one, can be found keeps
    /// the game consistent.
    pub proof fn lemma_add_player_consistent(self, player: PlayerView)
        requires
            self.consistent(),
            self.embodied_well(player),
        ensures
            self.add_player(player).consistent(),
    {
        let after = self.add_player(player);
        assert forall|id: PlayerId| #[trigger] after.players.contains_key(id) implies (
        after.players[id].id == id && after.embodied_well(after.players[id])) by {
            if id != player.id {
                assert(self.embodied_well(self.players[id]));
            }
        }
    }

    /// Filling a world keeps the game consistent.
    pub proof fn lemma_fill_world_consistent(self, world_id: WorldId)
        requires
            self.consistent(),
            self.worlds.contains_key(world_id),
        ensures
            self.fill_world(world_id).consistent(),
    {
        let after = self.fill_world(world_id);
        let world = self.worlds[world_id];
        let first = first_starter_room(world_id);
        let second = second_starter_room(world_id);
        world.lemma_add_room_consistent(first);
        world.add_room(first).lemma_add_room_consistent(second);
        assert forall|id: RoomId| world.room(id) is Some implies after.worlds[world_id].room(
            id,
        ) is Some by {
            lemma_find_room_push(world.rooms, first, id);
            lemma_find_room_push(world.rooms.push(first), second, id);
        }
        assert forall|i: int| 0 <= i < after.queue.len() implies valid_action(
            after.worlds,
            #[trigger] after.queue[i],
        ) by {
            assert(valid_action(self.worlds, self.queue[i]));
        }
        assert forall|id: PlayerId| #[trigger] after.players.contains_key(id) implies (
        after.players[id].id == id && after.embodied_well(after.players[id])) by {
            assert(self.embodied_well(self.players[id]));
        }
    }

    /// A change of a character's owner, together with a change of a
    /// player's main character to that character or to none, keeps the
    /// game consistent.
    pub proof fn lemma_player_character_consistent(
        self,
        world_id: WorldId,
        player_id: PlayerId,
        char_id: CharacterId,
    )
        requires
            self.consistent(),
            self.worlds.contains_key(world_id),
            self.worlds[world_id].characters.contains_key(char_id),
            self.players.contains_key(player_id),
        ensures
            self.set_player_character(world_id, player_id, char_id).consistent(),
            self.unset_player_character(world_id, player_id, char_id).consistent(),
    {
        let world = self.worlds[world_id];
        world.lemma_set_character_owner_consistent(char_id, Some(player_id));
        world.lemma_set_character_owner_consistent(char_id, None);
        let linked = self.set_player_character(world_id, player_id, char_id);
        let free = self.unset_player_character(world_id, player_id, char_id);
        assert(linked.worlds[world_id].characters.dom() =~= world.characters.dom());
        assert(free.worlds[world_id].characters.dom() =~= world.characters.dom());
        assert forall|i: int| 0 <= i < self.queue.len() implies valid_action(
            linked.worlds,
            #[trigger] linked.queue[i],
        ) && valid_action(free.worlds, #[trigger] free.queue[i]) by {
            assert(valid_action(self.worlds, self.queue[i]));
        }
        assert forall|id: PlayerId| #[trigger] linked.players.contains_key(id) implies (
        linked.players[id].id == id && linked.embodied_well(linked.players[id])) by {
            assert(self.embodied_well(self.players[id]));
        }
        assert forall|id: PlayerId| #[trigger] free.players.contains_key(id) implies (
        free.players[id].id == id && free.embodied_well(free.players[id])) by {
            assert(self.embodied_well(self.players[id]));
        }
    }

    /// Spawning a character for a player keeps the game consistent.
    pub proof fn lemma_spawn_player_character_consistent(
        self,
        world_id: WorldId,
        player_id: PlayerId,
        character: CharacterView,
    )
        requires
            self.consistent(),
            self.worlds.contains_key(world_id),
            self.worlds[world_id].rooms.len() > 0,
            self.players.contains_key(player_id),
        ensures
            self.spawn_player_character(world_id, player_id, character).consistent(),
    {
        let world = self.worlds[world_id];
        let spawned = GameView {
            worlds: self.worlds.insert(world_id, world.spawn_character(character)),
            ..self
        };
        world.lemma_spawn_character_consistent(character);
        assert forall|i: int| 0 <= i < spawned.queue.len() implies valid_action(
            spawned.worlds,
            #[trigger] spawned.queue[i],
        ) by {
            assert(valid_action(self.worlds, self.queue[i]));
        }
        assert forall|id: PlayerId| #[trigger] spawned.players.contains_key(id) implies (
        spawned.players[id].id == id && spawned.embodied_well(spawned.players[id])) by {
            assert(self.embodied_well(self.players[id]));
        }
        spawned.lemma_player_character_consistent(world_id, player_id, character.id);
    }

    /// Queueing a valid action keeps the game consistent.
    pub proof fn lemma_queue_action_consistent(self, action: GameAction)
        requires
            self.consistent(),
            valid_action(self.worlds, action),
        ensures
            self.queue_action(action).consistent(),
    {
    }

    /// Draining the queue keeps the game consistent.
    pub proof fn lemma_process_actions_queue_consistent(self)
        requires
            self.consistent(),
        ensures
            self.process_actions_queue().consistent(),
    {
        let after = self.process_actions_queue();
        lemma_apply_actions_keeps(self.worlds, self.queue);
        assert forall|id: PlayerId| #[trigger] after.players.contains_key(id) implies (
        after.players[id].id == id && after.embodied_well(after.players[id])) by {
            assert(self.embodied_well(self.players[id]));
            if let Some(who) = self.players[id].main_char {
                assert(registered(after.worlds, who) == registered(self.worlds, who));
            }
        }
    }
}

/// The top-level owner of every world and every player, and of the queue of
/// actions that wait to be applied.
#[derive(Debug)]
pub struct Game {
    worlds: HashMap<u32, World>,
    players: HashMap<u32, Player>,
    actions_queue: VecDeque<GameAction>,
}

impl View for Game {
    type V = GameView;

    closed spec fn view(&self) -> GameView {
        GameView {
            worlds: Map::new(
                |id: WorldId| self.worlds@.contains_key(id.0),
                |id: WorldId| self.worlds@[id.0]@,
            ),
            players: Map::new(
                |id: PlayerId| self.players@.contains_key(id.0),
                |id: PlayerId| self.players@[id.0]@,
            ),
            queue: self.actions_queue@,
        }
    }
}

impl Game {
    /// Creates a game without worlds, players or pending actions.
    pub fn new() -> (game: Game)
        ensures
            game@ == GameView::empty(),
            game@.consistent(),
            game@.in_sync(),
    {
        let game = Game {
            worlds: HashMap::new(),
            players: HashMap::new(),
            actions_queue: VecDeque::new(),
        };
        assert(game@.worlds =~= Map::empty());
        assert(game@.players =~= Map::empty());
        game
    }

    /// Stores `world` under its id and returns that id.
    pub fn add_world(&mut self, world: World) -> (id: WorldId)
        ensures
            id == world@.id,
            final(self)@ == old(self)@.add_world(world@),
            old(self)@.consistent() && world@.consistent() && !old(self)@.worlds.contains_key(
                world@.id,
            ) ==> final(self)@.consistent(),
    {
        let id = world.get_id();
        proof {
            if old(self)@.consistent() && world@.consistent() && !old(self)@.worlds.contains_key(
                world@.id,
            ) {
                old(self)@.lemma_add_world_consistent(world@);
            }
        }
        self.worlds.insert(id.0, world);
        assert(self@.worlds =~= old(self)@.worlds.insert(id, world@));
        assert(self@.players =~= old(self)@.players);
        id
    }

    /// Looks a world up. An unknown id is an ordinary outcome.
    pub fn get_world(&self, id: WorldId) -> (found: Option<&World>)
        ensures
            match found {
                Some(world) => self@.worlds.contains_key(id) && world@ == self@.worlds[id],
                None => !self@.worlds.contains_key(id),
            },
    {
        self.worlds.get(&id.0)
    }

    /// Stores `player` under its id and returns that id.
    pub fn add_player(&mut self, player: Player) -> (id: PlayerId)
        ensures
            id == player@.id,
            final(self)@ == old(self)@.add_player(player@),
            old(self)@.consistent() && old(self)@.embodied_well(player@)
                ==> final(self)@.consistent(),
    {
        let id = player.get_id();
        proof {
            if old(self)@.consistent() && old(self)@.embodied_well(player@) {
                old(self)@.lemma_add_player_consistent(player@);
            }
        }
        self.players.insert(id.0, player);
        assert(self@.players =~= old(self)@.players.insert(id, player@));
        assert(self@.worlds =~= old(self)@.worlds);
        id
    }

    /// Looks a player up. An unknown id is an ordinary outcome.
    pub fn get_player(&self, id: PlayerId) -> (found: Option<&Player>)
        ensures
            match found {
                Some(player) => self@.players.contains_key(id) && player@ == self@.players[id],
                None => !self@.players.contains_key(id),
            },
    {
        self.players.get(&id.0)
    }

    /// Resolves a character handle. A handle that leads nowhere is an
    /// ordinary outcome here; what it means is for the caller to say.
    pub fn get_character(&self, who: CharacterRef) -> (found: Option<&Character>)
        ensures
            match found {
                Some(character) => self@.character(who) == Some(character@),
                None => self@.character(who) is None,
            },
    {
        match self.get_world(who.world) {
            Some(world) => world.get_character(who.id),
            None => None,
        }
    }

    /// Populates a world with its two starter rooms: room 1, whose north
    /// and south exits lead to room 2 and whose east exit leads back to
    /// itself, and room 2, whose north and south exits lead to room 1 and
    /// whose west exit leads back to itself.
    pub fn fill_world(&mut self, world_id: WorldId)
        requires
            old(self)@.worlds.contains_key(world_id),
        ensures
            final(self)@ == old(self)@.fill_world(world_id),
            old(self)@.consistent() ==> final(self)@.consistent(),
            old(self)@.in_sync() ==> final(self)@.in_sync(),
    {
        proof {
            if old(self)@.consistent() {
                old(self)@.lemma_fill_world_consistent(world_id);
            }
            if old(self)@.in_sync() {
                old(self)@.lemma_fill_world_in_sync(world_id);
            }
        }
        let mut room1 = Room::new_in_void(RoomId::from(1), world_id);
        let mut room2 = Room::new_in_void(RoomId::from(2), world_id);
        let id1 = room1.get_id();
        let id2 = room2.get_id();

        room1.set_exit(&MoveDirection::North, id2);
        room1.set_exit(&MoveDirection::South, id2);
        room1.set_exit(&MoveDirection::East, id1);

        room2.set_exit(&MoveDirection::North, id1);
        room2.set_exit(&MoveDirection::South, id1);
        room2.set_exit(&MoveDirection::West, id2);

        let mut world = self.worlds.remove(&world_id.0).unwrap();
        world.add_room(room1);
        world.add_room(room2);
        self.worlds.insert(world_id.0, world);
        assert(self@.worlds =~= old(self)@.fill_world(world_id).worlds);
        assert(self@.players =~= old(self)@.players);
    }

    /// Spawns `character` in a world and hands it to a player.
    pub fn spawn_player_character(
        &mut self,
        world_id: WorldId,
        player_id: PlayerId,
        character: Character,
    )
        requires
            old(self)@.worlds.contains_key(world_id),
            old(self)@.worlds[world_id].rooms.len() > 0,
            !old(self)@.worlds[world_id].characters.contains_key(character@.id),
            old(self)@.players.contains_key(player_id),
        ensures
            final(self)@ == old(self)@.spawn_player_character(world_id, player_id, character@),
            old(self)@.consistent() ==> final(self)@.consistent(),
            old(self)@.in_sync() && old(self)@.players[player_id].main_char is None
                ==> final(self)@.in_sync(),
    {
        proof {
            if old(self)@.consistent() {
                old(self)@.lemma_spawn_player_character_consistent(
                    world_id,
                    player_id,
                    character@,
                );
            }
            if old(self)@.in_sync() && old(self)@.players[player_id].main_char is None {
                old(self)@.lemma_spawn_player_character_in_sync(world_id, player_id, character@);
            }
        }
        let char_id = character.get_id();
        let mut world = self.worlds.remove(&world_id.0).unwrap();
        world.spawn_character(character);
        self.worlds.insert(world_id.0, world);
        assert(self@.worlds =~= old(self)@.worlds.insert(
            world_id,
            old(self)@.worlds[world_id].spawn_character(character@),
        ));
        assert(self@.players =~= old(self)@.players);
        self.set_player_character(world_id, player_id, char_id);
    }

    /// Puts a player in control of a registered character: in one step the
    /// player's main character becomes that character and the character's
    /// owner becomes that player.
    pub fn set_player_character(
        &mut self,
        world_id: WorldId,
        player_id: PlayerId,
        char_id: CharacterId,
    )
        requires
            old(self)@.worlds.contains_key(world_id),
            old(self)@.worlds[world_id].characters.contains_key(char_id),
            old(self)@.players.contains_key(player_id),
        ensures
            final(self)@ == old(self)@.set_player_character(world_id, player_id, char_id),
            old(self)@.consistent() ==> final(self)@.consistent(),
            old(self)@.in_sync() && old(self)@.players[player_id].main_char is None
                && old(self)@.worlds[world_id].characters[char_id].owner is None
                ==> final(self)@.in_sync(),
    {
        proof {
            if old(self)@.consistent() {
                old(self)@.lemma_player_character_consistent(world_id, player_id, char_id);
            }
            if old(self)@.in_sync() && old(self)@.players[player_id].main_char is None
                && old(self)@.worlds[world_id].characters[char_id].owner is None {
                old(self)@.lemma_set_player_character_in_sync(world_id, player_id, char_id);
            }
        }
        let mut world = self.worlds.remove(&world_id.0).unwrap();
        let mut player = self.players.remove(&player_id.0).unwrap();
        player.set_main_char(CharacterRef { world: world_id, id: char_id });
        world.set_character_owner(char_id, Some(player_id));
        self.players.insert(player_id.0, player);
        self.worlds.insert(world_id.0, world);
        assert(self@.worlds =~= old(self)@.set_player_character(
            world_id,
            player_id,
            char_id,
        ).worlds);
        assert(self@.players =~= old(self)@.set_player_character(
            world_id,
            player_id,
            char_id,
        ).players);
    }

    /// Takes a character away from a player: in one step the player is left
    /// without a main character and the character without an owner. Neither
    /// is destroyed.
    pub fn unset_player_character(
        &mut self,
        world_id: WorldId,
        player_id: PlayerId,
        char_id: CharacterId,
    )
        requires
            old(self)@.worlds.contains_key(world_id),
            old(self)@.worlds[world_id].characters.contains_key(char_id),
            old(self)@.players.contains_key(player_id),
        ensures
            final(self)@ == old(self)@.unset_player_character(world_id, player_id, char_id),
            old(self)@.consistent() ==> final(self)@.consistent(),
            old(self)@.in_sync() && old(self)@.players[player_id].main_char == Some(
                CharacterRef { world: world_id, id: char_id },
            ) ==> final(self)@.in_sync(),
    {
        proof {
            if old(self)@.consistent() {
                old(self)@.lemma_player_character_consistent(world_id, player_id, char_id);
            }
            if old(self)@.in_sync() && old(self)@.players[player_id].main_char == Some(
                CharacterRef { world: world_id, id: char_id },
            ) {
                old(self)@.lemma_unset_player_character_in_sync(world_id, player_id, char_id);
            }
        }
        let mut world = self.worlds.remove(&world_id.0).unwrap();
        let mut player = self.players.remove(&player_id.0).unwrap();
        player.unset_main_char();
        world.set_character_owner(char_id, None);
        self.players.insert(player_id.0, player);
        self.worlds.insert(world_id.0, world);
        assert(self@.worlds =~= old(self)@.unset_player_character(
            world_id,
            player_id,
            char_id,
        ).worlds);
        assert(self@.players =~= old(self)@.unset_player_character(
            world_id,
            player_id,
            char_id,
        ).players);
    }

    /// Appends `action` to the queue. Nothing changes in the world yet.
    pub fn queue_action(&mut self, action: GameAction)
        ensures
            final(self)@ == old(self)@.queue_action(action),
            old(self)@.consistent() && valid_action(old(self)@.worlds, action)
                ==> final(self)@.consistent(),
            old(self)@.in_sync() ==> final(self)@.in_sync(),
    {
        self.actions_queue.push_back(action);
        assert(self@.worlds =~= old(self)@.worlds);
        assert(self@.players =~= old(self)@.players);
    }

    /// The pending actions, oldest first.
    pub fn get_actions_queue(&self) -> (queue: &VecDeque<GameAction>)
        ensures
            queue@ == self@.queue,
    {
        &self.actions_queue
    }

    /// Whether the queue can be drained: whether the character of every
    /// pending action can be found.
    pub fn can_process_actions_queue(&self) -> (ready: bool)
        ensures
            ready == all_registered(self@.worlds, self@.queue),
    {
        let mut i: usize = 0;
        while i < self.actions_queue.len()
            invariant
                i <= self.actions_queue.len(),
                forall|k: int| 0 <= k < i ==> registered(self@.worlds, (#[trigger] self@.queue[k])->who),
            decreases self.actions_queue.len() - i,
        {
            let who = match self.actions_queue[i] {
                GameAction::WalkFromTo { who, from: _, to: _ } => who,
            };
            if self.get_character(who).is_none() {
                assert(!registered(self@.worlds, self@.queue[i as int]->who));
                return false;
            }
            i += 1;
        }
        true
    }

    /// Drains the queue, applying every pending action in the order in
    /// which it was queued.
    ///
    /// The character of every pending action has to be there to be moved:
    /// a queue that names a character the game cannot find is a broken
    /// game, not a state to carry on from.
    pub fn process_actions_queue(&mut self)
        requires
            all_registered(old(self)@.worlds, old(self)@.queue),
        ensures
            final(self)@ == old(self)@.process_actions_queue(),
            old(self)@.consistent() ==> final(self)@.consistent(),
            old(self)@.in_sync() ==> final(self)@.in_sync(),
    {
        proof {
            if old(self)@.consistent() {
                old(self)@.lemma_process_actions_queue_consistent();
            }
            if old(self)@.in_sync() {
                old(self)@.lemma_process_actions_queue_in_sync();
            }
        }
        loop
            invariant
                self@.players == old(self)@.players,
                all_registered(self@.worlds, self@.queue),
                apply_actions(self@.worlds, self@.queue) == apply_actions(
                    old(self)@.worlds,
                    old(self)@.queue,
                ),
            ensures
                self@.players == old(self)@.players,
                self@.queue.len() == 0,
                apply_actions(self@.worlds, self@.queue) == apply_actions(
                    old(self)@.worlds,
                    old(self)@.queue,
                ),
            decreases self.actions_queue.len(),
        {
            let ghost before = self@;
            match self.actions_queue.pop_front() {
                None => {
                    assert(self@.worlds =~= before.worlds);
                    assert(self@.players =~= before.players);
                    break ;
                },
                Some(action) => {
                    assert(self@.queue =~= before.queue.drop_first());
                    assert(registered(before.worlds, before.queue[0]->who));
                    self.apply(action);
                    assert forall|i: int| 0 <= i < self@.queue.len() implies registered(
                        self@.worlds,
                        (#[trigger] self@.queue[i])->who,
                    ) by {
                        assert(self@.queue[i] == before.queue[i + 1]);
                    }
                },
            }
        }
        assert(self@.queue =~= Seq::empty());
    }

    /// Lets one action take effect.
    fn apply(&mut self, action: GameAction)
        requires
            registered(old(self)@.worlds, action->who),
        ensures
            final(self)@.worlds == apply_action(old(self)@.worlds, action),
            final(self)@.players == old(self)@.players,
            final(self)@.queue == old(self)@.queue,
    {
        match action {
            GameAction::WalkFromTo { who, from, to } => {
                let mut world = self.worlds.remove(&who.world.0).unwrap();
                world.set_character_room(who.id, Some(to));
                self.worlds.insert(who.world.0, world);
            },
        }
        assert(self@.worlds =~= apply_action(old(self)@.worlds, action));
        assert(self@.players =~= old(self)@.players);
    }
}

} // verus!
