//! Commands, what carrying them out leads to, and the actions they queue.
//!
//! A line of input becomes a [`Command`]. A command is checked against the
//! game as it stands, which only reads the game; where the check succeeds
//! and the command changes the world, the change is queued as a
//! [`GameAction`] and takes effect when the queue is drained.

use vstd::prelude::*;
use vstd::string::*;
use crate::area::{MoveDirection, RoomExit, RoomId};
use crate::game::{valid_action, Game, GameView, PlayerId};
use crate::socium::CharacterRef;
use crate::text::{copy_strings, lowercase, lowercase_equals, split_whitespace, texts, tokens};

verus! {

/// A validated request to change the world, waiting in the game's queue.
#[derive(Debug, PartialEq, Eq, Clone, Copy, Structural)]
pub enum GameAction {
    /// Move the character `who` from the room `from` to the room `to`, both
    /// rooms of the character's world.
    WalkFromTo { who: CharacterRef, from: RoomId, to: RoomId },
}

/// How an attempt to walk ended.
#[derive(Debug, PartialEq, Eq, Clone, Copy, Structural)]
pub enum MoveOutcome {
    /// The player controls no character.
    NoBody,
    /// The character stands in no room.
    Nowhere,
    /// The room has no exit in that direction.
    DeadEnd,
    /// A handle led nowhere: the exit's destination, the character, or the
    /// room the character should stand in is not where the game keeps it.
    GraphFailure,
    /// The walk is possible and now waits in the queue.
    Queued(GameAction),
}

impl MoveOutcome {
    /// The line that tells the player why the walk did not happen.
    pub open spec fn diagnostic_text(self) -> Option<Seq<char>> {
        match self {
            MoveOutcome::NoBody => Some("You have no physical body!"@),
            MoveOutcome::Nowhere => Some("You are nowhere and cannot step!"@),
            MoveOutcome::DeadEnd => Some("You cannot go this way!"@),
            MoveOutcome::GraphFailure => Some("The game is failed to moving you :("@),
            MoveOutcome::Queued(_) => None,
        }
    }

    /// No two diagnostics read the same, and none reads like the notice of
    /// an unknown command.
    pub proof fn lemma_diagnostics_differ(self, other: MoveOutcome)
        requires
            self.diagnostic_text() is Some,
            self.diagnostic_text() == other.diagnostic_text(),
        ensures
            self == other,
            self.diagnostic_text() != Some("Unknown command"@),
    {
        reveal_strlit("You have no physical body!");
        reveal_strlit("You are nowhere and cannot step!");
        reveal_strlit("You cannot go this way!");
        reveal_strlit("The game is failed to moving you :(");
        reveal_strlit("Unknown command");
        assert("You have no physical body!"@.len() == 26);
        assert("You are nowhere and cannot step!"@.len() == 32);
        assert("You cannot go this way!"@.len() == 23);
        assert("The game is failed to moving you :("@.len() == 35);
        assert("Unknown command"@.len() == 15);
    }

    /// The line that tells the player why the walk did not happen; none
    /// where it was queued.
    pub fn diagnostic(&self) -> (text: Option<&'static str>)
        ensures
            match text {
                Some(line) => self.diagnostic_text() == Some(line@),
                None => self.diagnostic_text() is None,
            },
    {
        match self {
            MoveOutcome::NoBody => Some("You have no physical body!"),
            MoveOutcome::Nowhere => Some("You are nowhere and cannot step!"),
            MoveOutcome::DeadEnd => Some("You cannot go this way!"),
            MoveOutcome::GraphFailure => Some("The game is failed to moving you :("),
            MoveOutcome::Queued(_) => None,
        }
    }
}

/// How the attempt of `subject` to walk in `direction` ends in `game`.
///
/// The player's character, the room it stands in and the exit's destination
/// are resolved in turn. A handle that is set and leads nowhere is never
/// taken for an absent one.
pub open spec fn move_outcome(
    game: GameView,
    subject: PlayerId,
    direction: MoveDirection,
) -> MoveOutcome
    recommends
        game.players.contains_key(subject),
{
    match game.players[subject].main_char {
        None => MoveOutcome::NoBody,
        Some(who) => match game.character(who) {
            None => MoveOutcome::GraphFailure,
            Some(character) => match character.current_room {
                None => MoveOutcome::Nowhere,
                Some(from) => match game.worlds[who.world].room(from) {
                    None => MoveOutcome::GraphFailure,
                    Some(room) => match room.exit(direction) {
                        RoomExit::DeadEnd => MoveOutcome::DeadEnd,
                        RoomExit::Pathway(to) => if game.worlds[who.world].room(to) is Some {
                            MoveOutcome::Queued(GameAction::WalkFromTo { who, from, to })
                        } else {
                            MoveOutcome::GraphFailure
                        },
                    },
                },
            },
        },
    }
}

/// The game after an attempt to walk: a possible walk is queued, and
/// nothing else ever changes.
pub open spec fn after_move(game: GameView, outcome: MoveOutcome) -> GameView {
    match outcome {
        MoveOutcome::Queued(action) => game.queue_action(action),
        _ => game,
    }
}

/// A walk is queued only after it was checked: the character can be found,
/// it stands in the room the walk starts from, that room has an exit in the
/// direction of the walk, and both rooms are rooms of the character's world.
pub proof fn lemma_queued_walk_was_checked(
    game: GameView,
    subject: PlayerId,
    direction: MoveDirection,
)
    ensures
        move_outcome(game, subject, direction) matches MoveOutcome::Queued(action) ==> {
            &&& valid_action(game.worlds, action)
            &&& game.players[subject].main_char == Some(action->who)
            &&& game.character(action->who)->0.current_room == Some(action->from)
            &&& game.worlds[action->who.world].room(action->from)->0.exit(direction)
                == RoomExit::Pathway(action->to)
        },
{
}

/// An attempt to walk never moves anybody and never touches a world or a
/// player. Where the walk is possible, the queue grows by that one walk;
/// where it is not, the game is left exactly as it was.
pub proof fn lemma_move_only_queues(game: GameView, subject: PlayerId, direction: MoveDirection)
    ensures
        after_move(game, move_outcome(game, subject, direction)).worlds == game.worlds,
        after_move(game, move_outcome(game, subject, direction)).players == game.players,
        move_outcome(game, subject, direction) matches MoveOutcome::Queued(action) ==> after_move(
            game,
            move_outcome(game, subject, direction),
        ).queue == game.queue.push(action),
        !(move_outcome(game, subject, direction) is Queued) ==> after_move(
            game,
            move_outcome(game, subject, direction),
        ) == game,
{
}

/// Walking into a dead end changes nothing: where the room the player's
/// character stands in has a dead end in the direction of the walk, the
/// outcome is the dead end, nothing is queued, and the character stays
/// where it is.
pub proof fn lemma_dead_end_changes_nothing(
    game: GameView,
    subject: PlayerId,
    direction: MoveDirection,
)
    requires
        game.players[subject].main_char matches Some(who) && game.character(who) matches Some(
            character,
        ) && character.current_room matches Some(from) && game.worlds[who.world].room(
            from,
        ) matches Some(room) && room.exit(direction) == RoomExit::DeadEnd,
    ensures
        move_outcome(game, subject, direction) == MoveOutcome::DeadEnd,
        after_move(game, move_outcome(game, subject, direction)) == game,
{
}

/// In a consistent game the only handle that can lead nowhere is an exit:
/// a walk ends in a graph failure exactly where the exit in its direction
/// is a pathway to a room that the character's world does not own.
pub proof fn lemma_graph_failure_is_a_lost_exit(
    game: GameView,
    subject: PlayerId,
    direction: MoveDirection,
)
    requires
        game.consistent(),
        game.players.contains_key(subject),
    ensures
        move_outcome(game, subject, direction) == MoveOutcome::GraphFailure <==> (
        game.players[subject].main_char matches Some(who) && game.character(who) matches Some(
            character,
        ) && character.current_room matches Some(from) && game.worlds[who.world].room(
            from,
        ) matches Some(room) && room.exit(direction) matches RoomExit::Pathway(to)
            && game.worlds[who.world].room(to) is None),
{
    assert(game.embodied_well(game.players[subject]));
    if let Some(who) = game.players[subject].main_char {
        let world = game.worlds[who.world];
        assert(world.placed_well(world.characters[who.id]));
    }
}

/// An attempt to walk keeps a consistent game consistent.
pub proof fn lemma_move_consistent(game: GameView, subject: PlayerId, direction: MoveDirection)
    requires
        game.consistent(),
    ensures
        after_move(game, move_outcome(game, subject, direction)).consistent(),
{
    lemma_queued_walk_was_checked(game, subject, direction);
}

/// Checks whether `subject_id` can walk in `direction`, without changing
/// anything.
pub fn resolve_move(game: &Game, subject_id: PlayerId, direction: MoveDirection) -> (outcome:
    MoveOutcome)
    requires
        game@.players.contains_key(subject_id),
    ensures
        outcome == move_outcome(game@, subject_id, direction),
{
    let player = game.get_player(subject_id).unwrap();
    let who = match player.get_main_char() {
        None => return MoveOutcome::NoBody,
        Some(who) => who,
    };
    let world = match game.get_world(who.world) {
        None => return MoveOutcome::GraphFailure,
        Some(world) => world,
    };
    let character = match world.get_character(who.id) {
        None => return MoveOutcome::GraphFailure,
        Some(character) => character,
    };
    let from = match character.get_current_room() {
        None => return MoveOutcome::Nowhere,
        Some(from) => from,
    };
    let room = match world.get_room(from) {
        None => return MoveOutcome::GraphFailure,
        Some(room) => room,
    };
    match room.get_exit(&direction) {
        RoomExit::DeadEnd => MoveOutcome::DeadEnd,
        RoomExit::Pathway(to) => match world.get_room(to) {
            None => MoveOutcome::GraphFailure,
            Some(_) => MoveOutcome::Queued(GameAction::WalkFromTo { who, from, to }),
        },
    }
}

/// Lets `subject_id` try to walk in `direction`: where the walk is
/// possible it is queued, and the character stays where it is until the
/// queue is drained.
pub fn move_to_direction(game: &mut Game, subject_id: PlayerId, direction: MoveDirection) -> (outcome:
    MoveOutcome)
    requires
        old(game)@.players.contains_key(subject_id),
    ensures
        outcome == move_outcome(old(game)@, subject_id, direction),
        final(game)@ == after_move(old(game)@, outcome),
        old(game)@.consistent() ==> final(game)@.consistent(),
        old(game)@.in_sync() ==> final(game)@.in_sync(),
{
    proof {
        lemma_queued_walk_was_checked(old(game)@, subject_id, direction);
    }
    let outcome = resolve_move(game, subject_id, direction);
    if let MoveOutcome::Queued(action) = outcome {
        game.queue_action(action);
    }
    outcome
}

/// One line of input, understood.
#[derive(Debug, PartialEq, Eq)]
pub enum Command {
    UnknownCommand,
    Empty,
    Quit,
    MoveNorth,
    MoveSouth,
    MoveWest,
    MoveEast,
    MoveUp,
    MoveDown,
    Say(Vec<String>),
}

/// The mathematical value of a [`Command`].
pub enum CommandView {
    UnknownCommand,
    Empty,
    Quit,
    MoveNorth,
    MoveSouth,
    MoveWest,
    MoveEast,
    MoveUp,
    MoveDown,
    Say(Seq<Seq<char>>),
}

impl View for Command {
    type V = CommandView;

    open spec fn view(&self) -> CommandView {
        match self {
            Command::UnknownCommand => CommandView::UnknownCommand,
            Command::Empty => CommandView::Empty,
            Command::Quit => CommandView::Quit,
            Command::MoveNorth => CommandView::MoveNorth,
            Command::MoveSouth => CommandView::MoveSouth,
            Command::MoveWest => CommandView::MoveWest,
            Command::MoveEast => CommandView::MoveEast,
            Command::MoveUp => CommandView::MoveUp,
            Command::MoveDown => CommandView::MoveDown,
            Command::Say(params) => CommandView::Say(texts(params@)),
        }
    }
}

/// The command a line of input stands for.
///
/// The line is split at white space. The first word, with its ASCII
/// capitals in lower case, is the verb; the words after it are the
/// parameters, which are kept as they are. A line without words is the
/// empty command, and a verb that is not known is the unknown command.
pub open spec fn parse_command(line: Seq<char>) -> CommandView {
    let words = tokens(line);
    if words.len() == 0 {
        CommandView::Empty
    } else {
        let verb = lowercase(words[0]);
        if verb == "quit"@ {
            CommandView::Quit
        } else if verb == "north"@ {
            CommandView::MoveNorth
        } else if verb == "south"@ {
            CommandView::MoveSouth
        } else if verb == "west"@ {
            CommandView::MoveWest
        } else if verb == "east"@ {
            CommandView::MoveEast
        } else if verb == "up"@ {
            CommandView::MoveUp
        } else if verb == "down"@ {
            CommandView::MoveDown
        } else if verb == "say"@ {
            CommandView::Say(words.skip(1))
        } else {
            CommandView::UnknownCommand
        }
    }
}

/// Understands one line of input.
pub fn command_to_enum(input: String) -> (command: Command)
    ensures
        command@ == parse_command(input@),
{
    let mut words = split_whitespace(input.as_str());
    if words.len() == 0 {
        return Command::Empty;
    }
    let ghost all = words@;
    let first = words.remove(0);
    let verb = first.as_str();
    assert(texts(words@) =~= tokens(input@).skip(1));
    assert(verb@ == texts(all)[0]);
    if lowercase_equals(verb, "quit") {
        Command::Quit
    } else if lowercase_equals(verb, "north") {
        Command::MoveNorth
    } else if lowercase_equals(verb, "south") {
        Command::MoveSouth
    } else if lowercase_equals(verb, "west") {
        Command::MoveWest
    } else if lowercase_equals(verb, "east") {
        Command::MoveEast
    } else if lowercase_equals(verb, "up") {
        Command::MoveUp
    } else if lowercase_equals(verb, "down") {
        Command::MoveDown
    } else if lowercase_equals(verb, "say") {
        Command::Say(words)
    } else {
        Command::UnknownCommand
    }
}

/// What carrying out a command led to.
#[derive(Debug, PartialEq, Eq)]
pub enum Outcome {
    /// Nothing was asked for, and nothing happened.
    Nothing,
    /// The player wants to leave: whoever reads the commands stops reading.
    Quit,
    /// The verb is not known. The player is told, and the game goes on.
    UnknownCommand,
    /// The words were spoken aloud, as they were given.
    Said(Vec<String>),
    /// The player tried to walk in a direction.
    Move(MoveDirection, MoveOutcome),
}

/// The mathematical value of an [`Outcome`].
pub enum OutcomeView {
    Nothing,
    Quit,
    UnknownCommand,
    Said(Seq<Seq<char>>),
    Move(MoveDirection, MoveOutcome),
}

impl View for Outcome {
    type V = OutcomeView;

    open spec fn view(&self) -> OutcomeView {
        match self {
            Outcome::Nothing => OutcomeView::Nothing,
            Outcome::Quit => OutcomeView::Quit,
            Outcome::UnknownCommand => OutcomeView::UnknownCommand,
            Outcome::Said(words) => OutcomeView::Said(texts(words@)),
            Outcome::Move(direction, outcome) => OutcomeView::Move(*direction, *outcome),
        }
    }
}

impl OutcomeView {
    /// The line that tells the player what went wrong.
    pub open spec fn diagnostic_text(self) -> Option<Seq<char>> {
        match self {
            OutcomeView::UnknownCommand => Some("Unknown command"@),
            OutcomeView::Move(_, outcome) => outcome.diagnostic_text(),
            _ => None,
        }
    }
}

impl Outcome {
    /// The line that tells the player what went wrong; none where nothing
    /// did.
    pub fn diagnostic(&self) -> (text: Option<&'static str>)
        ensures
            match text {
                Some(line) => self@.diagnostic_text() == Some(line@),
                None => self@.diagnostic_text() is None,
            },
    {
        match self {
            Outcome::UnknownCommand => Some("Unknown command"),
            Outcome::Move(_, outcome) => outcome.diagnostic(),
            _ => None,
        }
    }
}

impl CommandView {
    /// The short name a command goes by in a trace of the input.
    pub open spec fn code(self) -> Seq<char> {
        match self {
            CommandView::UnknownCommand => "u"@,
            CommandView::Empty => ""@,
            CommandView::Quit => "q"@,
            CommandView::MoveNorth => "mn"@,
            CommandView::MoveSouth => "ms"@,
            CommandView::MoveWest => "mw"@,
            CommandView::MoveEast => "me"@,
            CommandView::MoveUp => "mu"@,
            CommandView::MoveDown => "md"@,
            CommandView::Say(_) => "s"@,
        }
    }

    /// The direction a command walks in, if it walks.
    pub open spec fn direction(self) -> Option<MoveDirection> {
        match self {
            CommandView::MoveNorth => Some(MoveDirection::North),
            CommandView::MoveSouth => Some(MoveDirection::South),
            CommandView::MoveWest => Some(MoveDirection::West),
            CommandView::MoveEast => Some(MoveDirection::East),
            CommandView::MoveUp => Some(MoveDirection::Up),
            CommandView::MoveDown => Some(MoveDirection::Down),
            _ => None,
        }
    }

    /// What carrying out this command for `subject` leads to.
    pub open spec fn outcome(self, game: GameView, subject: PlayerId) -> OutcomeView {
        match self {
            CommandView::UnknownCommand => OutcomeView::UnknownCommand,
            CommandView::Empty => OutcomeView::Nothing,
            CommandView::Quit => OutcomeView::Quit,
            CommandView::Say(params) => OutcomeView::Said(params),
            _ => OutcomeView::Move(
                self.direction()->0,
                move_outcome(game, subject, self.direction()->0),
            ),
        }
    }

    /// The game after this command was carried out for `subject`. Only a
    /// command that walks can change the game, and only by queueing.
    pub open spec fn effect(self, game: GameView, subject: PlayerId) -> GameView {
        match self.direction() {
            Some(direction) => after_move(game, move_outcome(game, subject, direction)),
            None => game,
        }
    }
}

impl Command {
    /// The short name a command goes by in a trace of the input. The empty
    /// command has none.
    pub fn code(&self) -> (code: &'static str)
        ensures
            code@ == self@.code(),
    {
        match self {
            Command::UnknownCommand => "u",
            Command::Empty => "",
            Command::Quit => "q",
            Command::MoveNorth => "mn",
            Command::MoveSouth => "ms",
            Command::MoveWest => "mw",
            Command::MoveEast => "me",
            Command::MoveUp => "mu",
            Command::MoveDown => "md",
            Command::Say(_) => "s",
        }
    }

    /// Carries out this command for `subject_id`.
    pub fn execute(&self, game: &mut Game, subject_id: PlayerId) -> (outcome: Outcome)
        requires
            self@.direction() is Some ==> old(game)@.players.contains_key(subject_id),
        ensures
            outcome@ == self@.outcome(old(game)@, subject_id),
            final(game)@ == self@.effect(old(game)@, subject_id),
            old(game)@.consistent() ==> final(game)@.consistent(),
            old(game)@.in_sync() ==> final(game)@.in_sync(),
    {
        match self {
            Command::UnknownCommand => Outcome::UnknownCommand,
            Command::Empty => Outcome::Nothing,
            Command::Quit => Outcome::Quit,
            Command::MoveNorth => walk(game, subject_id, MoveDirection::North),
            Command::MoveSouth => walk(game, subject_id, MoveDirection::South),
            Command::MoveWest => walk(game, subject_id, MoveDirection::West),
            Command::MoveEast => walk(game, subject_id, MoveDirection::East),
            Command::MoveUp => walk(game, subject_id, MoveDirection::Up),
            Command::MoveDown => walk(game, subject_id, MoveDirection::Down),
            Command::Say(params) => Outcome::Said(copy_strings(params)),
        }
    }
}

fn walk(game: &mut Game, subject_id: PlayerId, direction: MoveDirection) -> (outcome: Outcome)
    requires
        old(game)@.players.contains_key(subject_id),
    ensures
        outcome@ == OutcomeView::Move(direction, move_outcome(old(game)@, subject_id, direction)),
        final(game)@ == after_move(old(game)@, move_outcome(old(game)@, subject_id, direction)),
        old(game)@.consistent() ==> final(game)@.consistent(),
        old(game)@.in_sync() ==> final(game)@.in_sync(),
{
    Outcome::Move(direction, move_to_direction(game, subject_id, direction))
}

/// Something a player can do: one type for each command.
pub trait CharAction {
    /// The command this action carries out.
    spec fn command(&self) -> CommandView;

    /// Carries the action out for `subject_id`.
    fn execute(&self, game: &mut Game, subject_id: PlayerId) -> (outcome: Outcome)
        requires
            self.command().direction() is Some ==> old(game)@.players.contains_key(subject_id),
        ensures
            outcome@ == self.command().outcome(old(game)@, subject_id),
            final(game)@ == self.command().effect(old(game)@, subject_id),
            old(game)@.consistent() ==> final(game)@.consistent(),
            old(game)@.in_sync() ==> final(game)@.in_sync(),
    ;
}

#[derive(Debug)]
pub struct UnknownCommand {}

#[derive(Debug)]
pub struct Empty {}

#[derive(Debug)]
pub struct Quit {}

#[derive(Debug)]
pub struct MoveNorth {}

#[derive(Debug)]
pub struct MoveSouth {}

#[derive(Debug)]
pub struct MoveWest {}

#[derive(Debug)]
pub struct MoveEast {}

#[derive(Debug)]
pub struct MoveUp {}

#[derive(Debug)]
pub struct MoveDown {}

#[derive(Debug)]
pub struct Say {
    params: Vec<String>,
}

impl Say {
    /// The action that speaks `params` aloud.
    pub fn new(params: Vec<String>) -> (say: Say)
        ensures
            say.command() == CommandView::Say(texts(params@)),
    {
        Say { params }
    }
}

impl CharAction for UnknownCommand {
    open spec fn command(&self) -> CommandView {
        CommandView::UnknownCommand
    }

    fn execute(&self, _game: &mut Game, _subject_id: PlayerId) -> (outcome: Outcome) {
        Outcome::UnknownCommand
    }
}

impl CharAction for Empty {
    open spec fn command(&self) -> CommandView {
        CommandView::Empty
    }

    fn execute(&self, _game: &mut Game, _subject_id: PlayerId) -> (outcome: Outcome) {
        Outcome::Nothing
    }
}

impl CharAction for Quit {
    open spec fn command(&self) -> CommandView {
        CommandView::Quit
    }

    fn execute(&self, _game: &mut Game, _subject_id: PlayerId) -> (outcome: Outcome) {
        Outcome::Quit
    }
}

impl CharAction for MoveNorth {
    open spec fn command(&self) -> CommandView {
        CommandView::MoveNorth
    }

    fn execute(&self, game: &mut Game, subject_id: PlayerId) -> (outcome: Outcome) {
        walk(game, subject_id, MoveDirection::North)
    }
}

impl CharAction for MoveSouth {
    open spec fn command(&self) -> CommandView {
        CommandView::MoveSouth
    }

    fn execute(&self, game: &mut Game, subject_id: PlayerId) -> (outcome: Outcome) {
        walk(game, subject_id, MoveDirection::South)
    }
}

impl CharAction for MoveWest {
    open spec fn command(&self) -> CommandView {
        CommandView::MoveWest
    }

    fn execute(&self, game: &mut Game, subject_id: PlayerId) -> (outcome: Outcome) {
        walk(game, subject_id, MoveDirection::West)
    }
}

impl CharAction for MoveEast {
    open spec fn command(&self) -> CommandView {
        CommandView::MoveEast
    }

    fn execute(&self, game: &mut Game, subject_id: PlayerId) -> (outcome: Outcome) {
        walk(game, subject_id, MoveDirection::East)
    }
}

impl CharAction for MoveUp {
    open spec fn command(&self) -> CommandView {
        CommandView::MoveUp
    }

    fn execute(&self, game: &mut Game, subject_id: PlayerId) -> (outcome: Outcome) {
        walk(game, subject_id, MoveDirection::Up)
    }
}

impl CharAction for MoveDown {
    open spec fn command(&self) -> CommandView {
        CommandView::MoveDown
    }

    fn execute(&self, game: &mut Game, subject_id: PlayerId) -> (outcome: Outcome) {
        walk(game, subject_id, MoveDirection::Down)
    }
}

impl CharAction for Say {
    closed spec fn command(&self) -> CommandView {
        CommandView::Say(texts(self.params@))
    }

    fn execute(&self, _game: &mut Game, _subject_id: PlayerId) -> (outcome: Outcome) {
        Outcome::Said(copy_strings(&self.params))
    }
}

} // verus!
