use vstd::prelude::*;
use crate::buffer::Communicator;
use crate::codec::{decode, decode_spec, lines, Action, Command, ParseCommandError};
use crate::geometry::Position;
use crate::world::{Cell, WorldProperties, WorldState};

verus! {

/// A command that names a cell the world does not hold.
#[derive(Clone, Copy, Debug, PartialEq, Eq)]
pub enum ProtocolError {
    UnknownCell(u32),
}

/// Why the client stops: an undecodable line or a command at odds with the
/// world.
#[derive(Clone, Copy, Debug, PartialEq, Eq)]
pub enum ClientError {
    Decode(ParseCommandError),
    Protocol(ProtocolError),
}

/// What the caller does after a line was handled.
#[derive(Clone, Copy, Debug, PartialEq, Eq)]
pub enum Step {
    /// Read the next line.
    Continue,
    /// A round begins: run the bot on `world_state()` with an empty action
    /// buffer, write the lines that `finish_round` gives back and flush them,
    /// then read the next line.
    RunBot,
    /// The match is over.
    Ended,
}

/// A bot defined by the user, run once per round on the current world; it
/// stages its actions through the cells, at most one per cell.
pub trait UserBot {
    fn run_round(&mut self, world_state: &WorldState, actions: &mut Communicator)
        requires
            world_state.wf(),
    ;
}

/// The cell that a spawn command creates in a world with constants `props`.
pub open spec fn spawned_cell(
    props: WorldProperties,
    cell_id: u32,
    x: u32,
    y: u32,
    health: u32,
    team_id: u32,
    age: u32,
) -> Cell {
    Cell {
        cell_id,
        position: Position { x: x as i32, y: y as i32 },
        health,
        team_id,
        age,
        is_enemy: team_id != props.my_team_id,
        world_properties: props,
    }
}

/// What a command does to the cells and the constants of the world.
pub open spec fn apply_spec(command: Command, cells: Map<u32, Cell>, props: WorldProperties) -> Result<
    (Map<u32, Cell>, WorldProperties),
    ProtocolError,
> {
    match command {
        Command::Initialize { width, height, team_id, my_column, enemy_column } => Ok(
            (
                Map::empty(),
                WorldProperties {
                    width,
                    height,
                    my_team_id: team_id,
                    my_column,
                    enemy_column,
                },
            ),
        ),
        Command::Spawn { cell_id, x, y, health, team_id, age } => Ok(
            (cells.insert(cell_id, spawned_cell(props, cell_id, x, y, health, team_id, age)), props),
        ),
        Command::Die { cell_id } => if cells.contains_key(cell_id) {
            Ok((cells.remove(cell_id), props))
        } else {
            Err(ProtocolError::UnknownCell(cell_id))
        },
        Command::SetCellProperties { cell_id, x, y, health, age } => if cells.contains_key(
            cell_id,
        ) {
            Ok(
                (
                    cells.insert(
                        cell_id,
                        Cell {
                            position: Position { x: x as i32, y: y as i32 },
                            health,
                            age,
                            ..cells[cell_id]
                        },
                    ),
                    props,
                ),
            )
        } else {
            Err(ProtocolError::UnknownCell(cell_id))
        },
        _ => Ok((cells, props)),
    }
}

/// A spawned cell is ours exactly when its team is ours: it is then among
/// our cells and not the enemy's, and not an enemy; otherwise it is among the
/// enemy's cells only, and an enemy.
pub proof fn lemma_spawn_side(
    w: WorldState,
    cell_id: u32,
    x: u32,
    y: u32,
    health: u32,
    team_id: u32,
    age: u32,
    after: WorldState,
)
    requires
        after.cells_view() == w.cells_view().insert(
            cell_id,
            spawned_cell(w.props(), cell_id, x, y, health, team_id, age),
        ),
        after.props() == w.props(),
    ensures
        ({
            let c = spawned_cell(w.props(), cell_id, x, y, health, team_id, age);
            &&& team_id == w.props().my_team_id ==> after.is_mine(c) && !after.is_theirs(c)
                && !c.is_enemy
            &&& team_id != w.props().my_team_id ==> after.is_theirs(c) && !after.is_mine(c)
                && c.is_enemy
        }),
        forall|d: Cell|
            d.cell_id == cell_id && d != spawned_cell(w.props(), cell_id, x, y, health, team_id, age)
                ==> !after.is_mine(d) && !after.is_theirs(d),
{
}

/// After a cell dies no cell with its identifier is ours or the enemy's,
/// whatever its team was, and a later property update or death of that
/// identifier fails.
pub proof fn lemma_die_removes(w: WorldState, cell_id: u32, after: WorldState)
    requires
        after.cells_view() == w.cells_view().remove(cell_id),
        after.props() == w.props(),
    ensures
        forall|d: Cell| d.cell_id == cell_id ==> !after.is_mine(d) && !after.is_theirs(d),
        forall|x: u32, y: u32, health: u32, age: u32|
            #[trigger] apply_spec(
                Command::SetCellProperties { cell_id, x, y, health, age },
                after.cells_view(),
                after.props(),
            ) == Err::<(Map<u32, Cell>, WorldProperties), ProtocolError>(
                ProtocolError::UnknownCell(cell_id),
            ),
        apply_spec(Command::Die { cell_id }, after.cells_view(), after.props()) == Err::<
            (Map<u32, Cell>, WorldProperties),
            ProtocolError,
        >(ProtocolError::UnknownCell(cell_id)),
{
}

/// How handling `command` takes the coordinator from `pre` to `post` with
/// the result `r`.
pub open spec fn handled(
    pre: GameCoordinator,
    command: Command,
    post: GameCoordinator,
    r: Result<Step, ProtocolError>,
) -> bool {
    if pre.at_round_start() && command == Command::EndGame {
        r == Ok::<Step, ProtocolError>(Step::Ended) && post.world() == pre.world()
    } else if command == Command::RunRound {
        &&& r == Ok::<Step, ProtocolError>(Step::RunBot)
        &&& post.world() == pre.world()
        &&& post.at_round_start()
    } else {
        match apply_spec(command, pre.world().cells_view(), pre.world().props()) {
            Ok((m, p)) => {
                &&& r == Ok::<Step, ProtocolError>(Step::Continue)
                &&& post.world().cells_view() == m
                &&& post.world().props() == p
                &&& !post.at_round_start()
            },
            Err(e) => r == Err::<Step, ProtocolError>(e),
        }
    }
}

/// The round state machine between the engine and the user's bot. The
/// caller reads lines, hands them in, and writes what comes back.
pub struct GameCoordinator {
    world_state: WorldState,
    between_rounds: bool,
}

impl GameCoordinator {
    /// The world holds each cell once.
    pub closed spec fn wf(&self) -> bool {
        self.world_state.wf()
    }

    /// The current world.
    pub closed spec fn world(&self) -> WorldState {
        self.world_state
    }

    /// Whether no command of the next round has been read yet, so that an
    /// end-of-game command ends the match.
    pub closed spec fn at_round_start(&self) -> bool {
        self.between_rounds
    }

    /// A coordinator before the first command: an empty world with zero
    /// constants.
    pub fn new() -> (r: GameCoordinator)
        ensures
            r.wf(),
            r.at_round_start(),
            r.world().cells_view() == Map::<u32, Cell>::empty(),
            r.world().props() == (WorldProperties {
                width: 0,
                height: 0,
                my_team_id: 0,
                my_column: 0,
                enemy_column: 0,
            }),
    {
        GameCoordinator {
            world_state: WorldState::with_properties(
                WorldProperties { width: 0, height: 0, my_team_id: 0, my_column: 0, enemy_column: 0 },
            ),
            between_rounds: true,
        }
    }

    /// The current world.
    pub fn world_state(&self) -> (r: &WorldState)
        requires
            self.wf(),
        ensures
            *r == self.world(),
            r.wf(),
    {
        &self.world_state
    }

    /// The acknowledgment line sent once at startup, before any command is
    /// read.
    pub fn advertise_initialization(&self) -> (r: String)
        ensures
            r@ == Action::Initialized.line(),
    {
        Action::Initialized.encode()
    }

    /// A fresh world with the given constants and no cells.
    pub fn apply_initialize(
        width: u32,
        height: u32,
        my_team_id: u32,
        my_column: u32,
        enemy_column: u32,
    ) -> (r: WorldState)
        ensures
            r.wf(),
            r.cells_view() == Map::<u32, Cell>::empty(),
            r.props() == (WorldProperties { width, height, my_team_id, my_column, enemy_column }),
    {
        WorldState::with_properties(
            WorldProperties { width, height, my_team_id, my_column, enemy_column },
        )
    }

    /// Adds a cell; whether it is an enemy is fixed now, against our team.
    pub fn apply_spawn(
        world_state: WorldState,
        cell_id: u32,
        x: u32,
        y: u32,
        health: u32,
        team_id: u32,
        age: u32,
    ) -> (r: WorldState)
        requires
            world_state.wf(),
        ensures
            r.wf(),
            r.cells_view() == world_state.cells_view().insert(
                cell_id,
                spawned_cell(world_state.props(), cell_id, x, y, health, team_id, age),
            ),
            r.props() == world_state.props(),
    {
        let mut world_state = world_state;
        let is_enemy = team_id != world_state.my_team_id();
        let properties = WorldProperties {
            width: world_state.width(),
            height: world_state.height(),
            my_team_id: world_state.my_team_id(),
            my_column: world_state.my_starting_column(),
            enemy_column: world_state.enemy_starting_column(),
        };
        world_state.insert_cell(
            Cell {
                cell_id,
                position: Position { x: x as i32, y: y as i32 },
                health,
                team_id,
                age,
                is_enemy,
                world_properties: properties,
            },
        );
        world_state
    }

    /// Moves a cell and sets its health and age; its team stays.
    pub fn apply_set_cell_properties(
        world_state: WorldState,
        cell_id: u32,
        x: u32,
        y: u32,
        health: u32,
        age: u32,
    ) -> (r: Result<WorldState, ProtocolError>)
        requires
            world_state.wf(),
        ensures
            match apply_spec(
                Command::SetCellProperties { cell_id, x, y, health, age },
                world_state.cells_view(),
                world_state.props(),
            ) {
                Ok((m, p)) => r matches Ok(w) && w.wf() && w.cells_view() == m && w.props() == p,
                Err(e) => r == Err::<WorldState, ProtocolError>(e),
            },
    {
        let ghost m0 = world_state.cells_view();
        let mut world_state = world_state;
        let updated = match world_state.get(cell_id) {
            Some(cell) => Cell {
                position: Position { x: x as i32, y: y as i32 },
                health,
                age,
                ..*cell
            },
            None => {
                return Err(ProtocolError::UnknownCell(cell_id));
            },
        };
        world_state.insert_cell(updated);
        Ok(world_state)
    }

    /// Takes a cell out of the world.
    pub fn apply_die(world_state: WorldState, cell_id: u32) -> (r: Result<WorldState, ProtocolError>)
        requires
            world_state.wf(),
        ensures
            match apply_spec(
                Command::Die { cell_id },
                world_state.cells_view(),
                world_state.props(),
            ) {
                Ok((m, p)) => r matches Ok(w) && w.wf() && w.cells_view() == m && w.props() == p,
                Err(e) => r == Err::<WorldState, ProtocolError>(e),
            },
    {
        let mut world_state = world_state;
        if world_state.remove_cell(cell_id) {
            Ok(world_state)
        } else {
            Err(ProtocolError::UnknownCell(cell_id))
        }
    }

    /// Folds one command into the world.
    pub fn apply_command(command: Command, world_state: WorldState) -> (r: Result<
        WorldState,
        ProtocolError,
    >)
        requires
            world_state.wf(),
        ensures
            match apply_spec(command, world_state.cells_view(), world_state.props()) {
                Ok((m, p)) => r matches Ok(w) && w.wf() && w.cells_view() == m && w.props() == p,
                Err(e) => r == Err::<WorldState, ProtocolError>(e),
            },
    {
        match command {
            Command::Initialize { width, height, team_id, my_column, enemy_column } => Ok(
                Self::apply_initialize(width, height, team_id, my_column, enemy_column),
            ),
            Command::Spawn { cell_id, x, y, health, team_id, age } => Ok(
                Self::apply_spawn(world_state, cell_id, x, y, health, team_id, age),
            ),
            Command::Die { cell_id } => Self::apply_die(world_state, cell_id),
            Command::SetCellProperties { cell_id, x, y, health, age } => Self::apply_set_cell_properties(
                world_state,
                cell_id,
                x,
                y,
                health,
                age,
            ),
            _ => Ok(world_state),
        }
    }

    /// Handles one command. Between rounds an end-of-game command ends the
    /// match. A round-start command leaves the world as it is and asks for
    /// the bot to be run on it. Any other command is folded into the world;
    /// after an error the match cannot go on.
    pub fn handle_command(&mut self, command: Command) -> (r: Result<
        Step,
        ProtocolError,
    >)
        requires
            old(self).wf(),
        ensures
            final(self).wf(),
            handled(*old(self), command, *final(self), r),
    {
        match command {
            Command::EndGame => {
                if self.between_rounds {
                    return Ok(Step::Ended);
                }
            },
            Command::RunRound => {
                self.between_rounds = true;
                return Ok(Step::RunBot);
            },
            _ => {},
        }
        let mut world_state = WorldState::with_properties(
            WorldProperties { width: 0, height: 0, my_team_id: 0, my_column: 0, enemy_column: 0 },
        );
        std::mem::swap(&mut world_state, &mut self.world_state);
        match Self::apply_command(command, world_state) {
            Ok(w) => {
                self.world_state = w;
                self.between_rounds = false;
                Ok(Step::Continue)
            },
            Err(e) => {
                self.world_state = WorldState::with_properties(
                    WorldProperties { width: 0, height: 0, my_team_id: 0, my_column: 0, enemy_column: 0 },
                );
                Err(e)
            },
        }
    }

    /// Decodes one line read from the engine and handles the command.
    pub fn handle_line(&mut self, line: &str) -> (r: Result<
        Step,
        ClientError,
    >)
        requires
            old(self).wf(),
        ensures
            final(self).wf(),
            match decode_spec(line@) {
                Err(e) => r == Err::<Step, ClientError>(ClientError::Decode(e)) && *final(self)
                    == *old(self),
                Ok(c) => match r {
                    Ok(s) => handled(*old(self), c, *final(self), Ok(s)),
                    Err(ClientError::Protocol(e)) => handled(*old(self), c, *final(self), Err(e)),
                    Err(ClientError::Decode(_)) => false,
                },
            },
    {
        match decode(line) {
            Err(e) => Err(ClientError::Decode(e)),
            Ok(c) => match self.handle_command(c) {
                Ok(s) => Ok(s),
                Err(e) => Err(ClientError::Protocol(e)),
            },
        }
    }

    /// Ends a round once the bot has run: the lines of the actions that the
    /// bot staged in `actions`, in staging order, then the round-end line.
    /// The buffer is left empty and the world as it is.
    pub fn finish_round(&mut self, actions: &mut Communicator) -> (r: String)
        requires
            old(self).wf(),
        ensures
            final(self).wf(),
            r@ == lines(old(actions)@) + Action::RoundEnd.line(),
            final(actions)@ == Seq::<Action>::empty(),
            final(self).world() == old(self).world(),
            final(self).at_round_start(),
    {
        self.between_rounds = true;
        actions.end_round()
    }
}

} // verus!
