use cellwars::{
    Action, ClientError, Command, Communicator, Direction, GameCoordinator, ParseCommandError,
    Position, ProtocolError, Step, UserBot, WorldState,
};

struct Idle;

impl UserBot for Idle {
    fn run_round(&mut self, _world_state: &WorldState, _actions: &mut Communicator) {}
}

struct MoveEast;

impl UserBot for MoveEast {
    fn run_round(&mut self, world_state: &WorldState, actions: &mut Communicator) {
        for cell in world_state.my_cells() {
            cell.move_in_direction(&Direction::East, actions);
        }
    }
}

fn world_after(lines: &[&str]) -> WorldState {
    let mut w = GameCoordinator::apply_initialize(0, 0, 0, 0, 0);
    for line in lines {
        let c = cellwars::decode(line).unwrap();
        w = GameCoordinator::apply_command(c, w).unwrap();
    }
    w
}

fn ids(cells: Vec<&cellwars::Cell>) -> Vec<u32> {
    let mut v: Vec<u32> = cells.iter().map(|c| c.cell_id()).collect();
    v.sort();
    v
}

#[test]
fn spawn_own_team_is_mine() {
    let w = world_after(&["INITIALIZE 5 5 7 0 4", "SPAWN 1 2 3 100 7 0"]);
    assert_eq!(ids(w.my_cells()), vec![1]);
    assert!(ids(w.enemy_cells()).is_empty());
    let c = w.get(1).unwrap();
    assert!(!c.is_enemy());
    assert_eq!(c.position(), &Position::new(2, 3));
    assert_eq!(c.health(), 100);
    assert_eq!(c.team_id(), 7);
    assert_eq!(c.age(), 0);
}

#[test]
fn spawn_other_team_is_enemy() {
    let w = world_after(&["INITIALIZE 5 5 7 0 4", "SPAWN 2 4 1 50 3 2"]);
    assert!(ids(w.my_cells()).is_empty());
    assert_eq!(ids(w.enemy_cells()), vec![2]);
    assert!(w.get(2).unwrap().is_enemy());
}

#[test]
fn die_removes_cell_and_later_update_fails() {
    let w = world_after(&[
        "INITIALIZE 5 5 1 0 4",
        "SPAWN 1 0 0 100 1 0",
        "SPAWN 2 4 4 100 2 0",
        "DIE 1",
        "DIE 2",
    ]);
    assert!(ids(w.my_cells()).is_empty());
    assert!(ids(w.enemy_cells()).is_empty());
    let r = GameCoordinator::apply_command(
        Command::SetCellProperties { cell_id: 1, x: 1, y: 1, health: 5, age: 1 },
        w,
    );
    assert!(matches!(r, Err(ProtocolError::UnknownCell(1))));
}

#[test]
fn die_of_absent_cell_fails() {
    let w = world_after(&["INITIALIZE 5 5 1 0 4"]);
    assert!(matches!(GameCoordinator::apply_die(w, 3), Err(ProtocolError::UnknownCell(3))));
}

#[test]
fn set_cell_properties_keeps_team() {
    let w = world_after(&[
        "INITIALIZE 5 5 1 0 4",
        "SPAWN 1 0 0 100 2 0",
        "SET_CELL_PROPERTIES 1 3 4 60 9",
    ]);
    let c = w.get(1).unwrap();
    assert_eq!(c.position(), &Position::new(3, 4));
    assert_eq!(c.health(), 60);
    assert_eq!(c.age(), 9);
    assert_eq!(c.team_id(), 2);
    assert!(c.is_enemy());
}

#[test]
fn spawn_twice_overwrites() {
    let w = world_after(&["INITIALIZE 5 5 1 0 4", "SPAWN 1 0 0 100 1 0", "SPAWN 1 2 2 10 2 0"]);
    assert!(ids(w.my_cells()).is_empty());
    assert_eq!(ids(w.enemy_cells()), vec![1]);
    assert_eq!(w.get(1).unwrap().health(), 10);
}

#[test]
fn initialize_sets_constants_and_clears_cells() {
    let w = world_after(&["INITIALIZE 5 5 1 0 4", "SPAWN 1 0 0 100 1 0", "INITIALIZE 8 6 2 7 0"]);
    assert_eq!(w.width(), 8);
    assert_eq!(w.height(), 6);
    assert_eq!(w.my_team_id(), 2);
    assert_eq!(w.my_starting_column(), 7);
    assert_eq!(w.enemy_starting_column(), 0);
    assert!(w.get(1).is_none());
}

#[test]
fn move_targets_are_the_four_neighbours() {
    let w = world_after(&["INITIALIZE 5 5 1 0 4", "SPAWN 1 2 2 100 1 0", "SPAWN 2 0 0 100 1 0"]);
    let c = w.get(1).unwrap();
    let mut allowed = Vec::new();
    for x in -1..7 {
        for y in -1..7 {
            if c.can_move_to_position(&Position::new(x, y)) {
                allowed.push((x, y));
            }
        }
    }
    assert_eq!(allowed, vec![(1, 2), (2, 1), (2, 3), (3, 2)]);
    let corner = w.get(2).unwrap();
    assert!(!corner.can_move_to_position(&Position::new(-1, 0)));
    assert!(!corner.can_move_in_direction(&Direction::North));
    assert!(!corner.can_move_in_direction(&Direction::West));
    assert!(corner.can_move_in_direction(&Direction::East));
    assert!(corner.can_move_in_direction(&Direction::South));
}

#[test]
fn attack_targets_are_the_nine_squares() {
    let w = world_after(&["INITIALIZE 5 5 1 0 4", "SPAWN 1 2 2 100 1 0", "SPAWN 2 4 4 100 2 0"]);
    let c = w.get(1).unwrap();
    let mut allowed = 0;
    for x in -1..7 {
        for y in -1..7 {
            let p = Position::new(x, y);
            let near = (x - 2).abs() <= 1 && (y - 2).abs() <= 1;
            assert_eq!(c.can_attack_position(&p), near);
            if near {
                allowed += 1;
            }
        }
    }
    assert_eq!(allowed, 9);
    let far = w.get(2).unwrap();
    assert!(!c.can_attack_cell(far));
    assert!(!far.can_attack_position(&Position::new(5, 5)));
    assert!(far.can_attack_position(&Position::new(4, 4)));
}

#[test]
fn illegal_intents_are_dropped() {
    let w = world_after(&["INITIALIZE 5 5 1 0 4", "SPAWN 1 2 2 100 1 0", "SPAWN 2 2 3 100 2 0"]);
    let c = w.get(1).unwrap();
    let mut buf = Communicator::new();
    c.move_to_position(&Position::new(3, 3), &mut buf);
    c.move_to_position(&Position::new(2, 2), &mut buf);
    c.attack_position(&Position::new(4, 2), &mut buf);
    assert!(buf.pending_actions().is_empty());
    c.move_to_position(&Position::new(2, 1), &mut buf);
    assert_eq!(buf.pending_actions(), &vec![Action::Move { cell_id: 1, x: 2, y: 1 }]);
    c.attack_cell(w.get(2).unwrap(), &mut buf);
    c.move_in_direction(&Direction::West, &mut buf);
    c.explode(&mut buf);
    assert_eq!(
        buf.pending_actions(),
        &vec![
            Action::Move { cell_id: 1, x: 2, y: 1 },
            Action::Attack { cell_id: 1, x: 2, y: 3 },
            Action::Move { cell_id: 1, x: 1, y: 2 },
            Action::Explode { cell_id: 1 },
        ]
    );
}

fn play<B: UserBot>(bot: &mut B, lines: &[&str]) -> (String, Result<(), ClientError>) {
    let mut game = GameCoordinator::new();
    let mut actions = Communicator::new();
    let mut out = game.advertise_initialization();
    for line in lines {
        match game.handle_line(line) {
            Ok(Step::Continue) => {}
            Ok(Step::RunBot) => {
                bot.run_round(game.world_state(), &mut actions);
                out.push_str(&game.finish_round(&mut actions));
            }
            Ok(Step::Ended) => return (out, Ok(())),
            Err(e) => return (out, Err(e)),
        }
    }
    (out, Ok(()))
}

#[test]
fn end_round_always_ends_with_round_end() {
    let w = world_after(&["INITIALIZE 5 5 1 0 4", "SPAWN 1 2 2 100 1 0", "SPAWN 3 0 0 100 1 0"]);
    let mut game = GameCoordinator::new();
    let mut buf = Communicator::new();
    assert_eq!(game.finish_round(&mut buf), "ROUND_END\n");
    w.get(3).unwrap().explode(&mut buf);
    w.get(1).unwrap().move_to_position(&Position::new(2, 1), &mut buf);
    assert_eq!(game.finish_round(&mut buf), "EXPLODE 3\nMOVE 1 2 1\nROUND_END\n");
    assert!(buf.pending_actions().is_empty());
    assert_eq!(game.finish_round(&mut buf), "ROUND_END\n");
    assert_eq!(buf.flush_action(&Action::Initialized), "INITIALIZED\n");
    assert_eq!(buf.read_command("DIE 4"), Ok(Command::Die { cell_id: 4 }));
}

#[test]
fn scenario_move_east() {
    let (out, r) = play(
        &mut MoveEast,
        &["INITIALIZE 5 5 1 0 4\n", "SPAWN 1 0 2 100 1 0\n", "RUN_ROUND\n", "END_GAME\n"],
    );
    assert_eq!(r, Ok(()));
    assert_eq!(out, "INITIALIZED\nMOVE 1 1 2\nROUND_END\n");
}

#[test]
fn idle_bot_sends_only_round_end() {
    let (out, r) = play(
        &mut Idle,
        &["INITIALIZE 5 5 1 0 4", "SPAWN 1 0 2 100 1 0", "RUN_ROUND", "RUN_ROUND", "END_GAME"],
    );
    assert_eq!(r, Ok(()));
    assert_eq!(out, "INITIALIZED\nROUND_END\nROUND_END\n");
}

#[test]
fn end_game_only_between_rounds() {
    let mut game = GameCoordinator::new();
    assert_eq!(game.handle_line("INITIALIZE 5 5 1 0 4"), Ok(Step::Continue));
    assert_eq!(game.handle_line("END_GAME"), Ok(Step::Continue));
    assert_eq!(game.handle_line("RUN_ROUND"), Ok(Step::RunBot));
    let mut buf = Communicator::new();
    assert_eq!(game.finish_round(&mut buf), "ROUND_END\n");
    assert_eq!(game.handle_line("END_GAME"), Ok(Step::Ended));
}

#[test]
fn coordinator_errors() {
    let mut game = GameCoordinator::new();
    assert_eq!(
        game.handle_line("HELLO"),
        Err(ClientError::Decode(ParseCommandError::UnknownCommand))
    );
    assert_eq!(
        game.handle_line("SET_CELL_PROPERTIES 1 1 1 1 1"),
        Err(ClientError::Protocol(ProtocolError::UnknownCell(1)))
    );
    assert_eq!(game.world_state().width(), 0);
    let (out, r) = play(&mut Idle, &["INITIALIZE 5 5 1 0 4", "RUN_ROUND", "BAD"]);
    assert_eq!(r, Err(ClientError::Decode(ParseCommandError::UnknownCommand)));
    assert_eq!(out, "INITIALIZED\nROUND_END\n");
}
