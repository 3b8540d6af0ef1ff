use vstd::prelude::*;
use crate::buffer::Communicator;
use crate::codec::Action;
use crate::geometry::{abs_int, Direction, Position};

verus! {

/// Per-match constants, set by the engine's initialization.
#[derive(Clone, Copy, Debug, PartialEq, Eq, Default)]
pub struct WorldProperties {
    pub width: u32,
    pub height: u32,
    pub my_team_id: u32,
    pub my_column: u32,
    pub enemy_column: u32,
}

/// A cell in the game.
#[derive(Clone, Copy, Debug, PartialEq, Eq)]
pub struct Cell {
    pub cell_id: u32,
    pub position: Position,
    pub health: u32,
    pub team_id: u32,
    pub age: u32,
    /// Whether the team differs from ours, fixed when the cell appeared.
    pub is_enemy: bool,
    /// The match constants in force when the cell appeared.
    pub world_properties: WorldProperties,
}

impl Cell {
    /// Whether `p` lies on the board.
    pub open spec fn in_bounds(self, p: Position) -> bool {
        &&& 0 <= p.x < self.world_properties.width
        &&& 0 <= p.y < self.world_properties.height
    }

    /// Whether `p` is an on-board orthogonal neighbour of this cell.
    pub open spec fn may_move_to(self, p: Position) -> bool {
        self.in_bounds(p) && self.position.manhattan(p) == 1
    }

    /// Whether the step in `direction` leads to a square this cell may move to.
    pub open spec fn may_move_in(self, direction: Direction) -> bool {
        self.position.can_step(direction) && self.may_move_to(self.position.stepped(direction))
    }

    /// Whether `p` is on the board and within one square of this cell in each
    /// axis (the cell's own square included).
    pub open spec fn may_attack(self, p: Position) -> bool {
        &&& self.in_bounds(p)
        &&& abs_int(p.x - self.position.x) <= 1
        &&& abs_int(p.y - self.position.y) <= 1
    }

    /// Gets the unique identifier of this cell for the match.
    pub fn cell_id(&self) -> (r: u32)
        ensures
            r == self.cell_id,
    {
        self.cell_id
    }

    /// Gets the position of this cell.
    pub fn position(&self) -> (r: &Position)
        ensures
            *r == self.position,
    {
        &self.position
    }

    /// Gets the health of this cell.
    pub fn health(&self) -> (r: u32)
        ensures
            r == self.health,
    {
        self.health
    }

    /// Gets this cell's team identifier.
    pub fn team_id(&self) -> (r: u32)
        ensures
            r == self.team_id,
    {
        self.team_id
    }

    /// Gets the cell's age.
    pub fn age(&self) -> (r: u32)
        ensures
            r == self.age,
    {
        self.age
    }

    /// Indicates if this cell belongs to the enemy.
    pub fn is_enemy(&self) -> (r: bool)
        ensures
            r == self.is_enemy,
    {
        self.is_enemy
    }

    /// Whether `position` lies on the board.
    pub fn is_in_bounds(&self, position: &Position) -> (r: bool)
        ensures
            r == self.in_bounds(*position),
    {
        position.x >= 0 && position.y >= 0 && (position.x as i64) < (
        self.world_properties.width as i64) && (position.y as i64) < (
        self.world_properties.height as i64)
    }

    /// Indicates if the cell can move into the given position.
    pub fn can_move_to_position(&self, position: &Position) -> (r: bool)
        ensures
            r == self.may_move_to(*position),
    {
        self.is_in_bounds(position) && self.position.distance(position) == 1
    }

    /// Whether one step in `direction` can be represented as a position.
    fn can_step(&self, direction: &Direction) -> (r: bool)
        ensures
            r == self.position.can_step(*direction),
    {
        let offset = direction.as_position_offset();
        let x = self.position.x as i64 + offset.0 as i64;
        let y = self.position.y as i64 + offset.1 as i64;
        i32::MIN as i64 <= x && x <= i32::MAX as i64 && i32::MIN as i64 <= y && y
            <= i32::MAX as i64
    }

    /// Indicates if the cell can move in the given direction.
    pub fn can_move_in_direction(&self, direction: &Direction) -> (r: bool)
        ensures
            r == self.may_move_in(*direction),
    {
        self.can_step(direction) && self.can_move_to_position(
            &self.position.translated_by_direction(direction),
        )
    }

    /// Indicates if the cell can attack the given position.
    pub fn can_attack_position(&self, position: &Position) -> (r: bool)
        ensures
            r == self.may_attack(*position),
    {
        let dx = position.x as i64 - self.position.x as i64;
        let dy = position.y as i64 - self.position.y as i64;
        self.is_in_bounds(position) && -1 <= dx && dx <= 1 && -1 <= dy && dy <= 1
    }

    /// Indicates if the cell can attack the given cell: a proximity check
    /// only, whatever the other cell's team.
    pub fn can_attack_cell(&self, cell: &Cell) -> (r: bool)
        ensures
            r == self.may_attack(cell.position),
    {
        self.can_attack_position(&cell.position)
    }

    /// Stages an attack on the given position; an attack out of reach is
    /// dropped.
    pub fn attack_position(&self, position: &Position, actions: &mut Communicator)
        ensures
            final(actions)@ == if self.may_attack(*position) {
                old(actions)@.push(
                    Action::Attack {
                        cell_id: self.cell_id,
                        x: position.x as u32,
                        y: position.y as u32,
                    },
                )
            } else {
                old(actions)@
            },
    {
        if self.can_attack_position(position) {
            actions.add_action(
                Action::Attack { cell_id: self.cell_id, x: position.x as u32, y: position.y as u32 },
            );
        }
    }

    /// Stages an attack on the given cell; an attack out of reach is dropped.
    pub fn attack_cell(&self, cell: &Cell, actions: &mut Communicator)
        ensures
            final(actions)@ == if self.may_attack(cell.position) {
                old(actions)@.push(
                    Action::Attack {
                        cell_id: self.cell_id,
                        x: cell.position.x as u32,
                        y: cell.position.y as u32,
                    },
                )
            } else {
                old(actions)@
            },
    {
        self.attack_position(&cell.position, actions);
    }

    /// Stages a move into the given position; an illegal move is dropped.
    pub fn move_to_position(&self, position: &Position, actions: &mut Communicator)
        ensures
            final(actions)@ == if self.may_move_to(*position) {
                old(actions)@.push(
                    Action::Move {
                        cell_id: self.cell_id,
                        x: position.x as u32,
                        y: position.y as u32,
                    },
                )
            } else {
                old(actions)@
            },
    {
        if self.can_move_to_position(position) {
            actions.add_action(
                Action::Move { cell_id: self.cell_id, x: position.x as u32, y: position.y as u32 },
            );
        }
    }

    /// Stages a move one step in the given direction; an illegal move is
    /// dropped.
    pub fn move_in_direction(&self, direction: &Direction, actions: &mut Communicator)
        ensures
            final(actions)@ == if self.may_move_in(*direction) {
                old(actions)@.push(
                    Action::Move {
                        cell_id: self.cell_id,
                        x: self.position.stepped(*direction).x as u32,
                        y: self.position.stepped(*direction).y as u32,
                    },
                )
            } else {
                old(actions)@
            },
    {
        if self.can_move_in_direction(direction) {
            self.move_to_position(&self.position.translated_by_direction(direction), actions);
        }
    }

    /// Stages an explosion of this cell; it always goes out.
    pub fn explode(&self, actions: &mut Communicator)
        ensures
            final(actions)@ == old(actions)@.push(Action::Explode { cell_id: self.cell_id }),
    {
        actions.add_action(Action::Explode { cell_id: self.cell_id });
    }
}

/// A cell may move exactly to the four orthogonal neighbours of its square
/// that lie on the board: never to its own square, a diagonal, a square two
/// or more away, or a square off the board.
pub proof fn lemma_move_targets(c: Cell, p: Position)
    ensures
        c.may_move_to(p) <==> c.in_bounds(p) && {
            ||| p.x == c.position.x + 1 && p.y == c.position.y
            ||| p.x == c.position.x - 1 && p.y == c.position.y
            ||| p.x == c.position.x && p.y == c.position.y + 1
            ||| p.x == c.position.x && p.y == c.position.y - 1
        },
        !c.may_move_to(c.position),
{
}

/// A cell may attack exactly the squares of the board within one step in
/// each axis: its eight neighbours and its own square.
pub proof fn lemma_attack_targets(c: Cell, p: Position)
    ensures
        c.may_attack(p) <==> c.in_bounds(p) && {
            &&& c.position.x - 1 <= p.x <= c.position.x + 1
            &&& c.position.y - 1 <= p.y <= c.position.y + 1
        },
        c.in_bounds(c.position) ==> c.may_attack(c.position),
{
}

/// The map from cell identifier to cell that a sequence of cells stands
/// for; a later cell wins over an earlier one with the same identifier.
pub open spec fn cells_map(s: Seq<Cell>) -> Map<u32, Cell>
    decreases s.len(),
{
    if s.len() == 0 {
        Map::empty()
    } else {
        cells_map(s.drop_last()).insert(s.last().cell_id, s.last())
    }
}

/// No two cells of `s` share an identifier.
pub open spec fn ids_unique(s: Seq<Cell>) -> bool {
    forall|i: int, j: int|
        0 <= i < s.len() && 0 <= j < s.len() && i != j ==> #[trigger] s[i].cell_id
            != #[trigger] s[j].cell_id
}

/// Each identifier of the map belongs to a cell of the sequence, and each
/// cell of a sequence without repeated identifiers is found under its own.
pub proof fn lemma_cells_map(s: Seq<Cell>)
    ensures
        forall|id: u32|
            #[trigger] cells_map(s).contains_key(id) ==> exists|j: int|
                0 <= j < s.len() && s[j].cell_id == id,
        forall|j: int| 0 <= j < s.len() ==> cells_map(s).contains_key(#[trigger] s[j].cell_id),
        ids_unique(s) ==> forall|j: int|
            0 <= j < s.len() ==> cells_map(s)[#[trigger] s[j].cell_id] == s[j],
    decreases s.len(),
{
    if s.len() > 0 {
        let p = s.drop_last();
        lemma_cells_map(p);
        assert forall|id: u32| #[trigger] cells_map(s).contains_key(id) implies exists|j: int|
            0 <= j < s.len() && s[j].cell_id == id by {
            if id != s.last().cell_id {
                let j = choose|j: int| 0 <= j < p.len() && p[j].cell_id == id;
                assert(s[j] == p[j]);
            }
        }
        assert forall|j: int| 0 <= j < s.len() implies cells_map(s).contains_key(
            #[trigger] s[j].cell_id,
        ) by {
            if j < p.len() {
                assert(s[j] == p[j]);
                assert(cells_map(p).contains_key(p[j].cell_id));
            }
        }
        if ids_unique(s) {
            assert(ids_unique(p)) by {
                assert forall|i: int, j: int|
                    0 <= i < p.len() && 0 <= j < p.len() && i != j implies #[trigger] p[i].cell_id
                    != #[trigger] p[j].cell_id by {
                    assert(p[i] == s[i] && p[j] == s[j]);
                }
            }
            assert forall|j: int| 0 <= j < s.len() implies cells_map(s)[#[trigger] s[j].cell_id]
                == s[j] by {
                if j < p.len() {
                    assert(s[j] == p[j]);
                    assert(s[j].cell_id != s[s.len() - 1].cell_id);
                    assert(cells_map(p)[p[j].cell_id] == p[j]);
                }
            }
        }
    }
}

/// Taking one cell out of a sequence without repeated identifiers takes its
/// identifier out of the map.
pub proof fn lemma_cells_map_remove(s: Seq<Cell>, i: int)
    requires
        ids_unique(s),
        0 <= i < s.len(),
    ensures
        cells_map(s.remove(i)) == cells_map(s).remove(s[i].cell_id),
        ids_unique(s.remove(i)),
{
    let r = s.remove(i);
    let id = s[i].cell_id;
    assert(ids_unique(r)) by {
        assert forall|a: int, b: int|
            0 <= a < r.len() && 0 <= b < r.len() && a != b implies #[trigger] r[a].cell_id
            != #[trigger] r[b].cell_id by {
            let sa = if a < i { a } else { a + 1 };
            let sb = if b < i { b } else { b + 1 };
            assert(r[a] == s[sa] && r[b] == s[sb]);
        }
    }
    lemma_cells_map(s);
    lemma_cells_map(r);
    let m = cells_map(s).remove(id);
    assert forall|k: u32| #[trigger] cells_map(r).contains_key(k) == m.contains_key(k) by {
        if cells_map(r).contains_key(k) {
            let j = choose|j: int| 0 <= j < r.len() && r[j].cell_id == k;
            let sj = if j < i { j } else { j + 1 };
            assert(r[j] == s[sj]);
            assert(cells_map(s).contains_key(s[sj].cell_id));
        }
        if m.contains_key(k) {
            let j = choose|j: int| 0 <= j < s.len() && s[j].cell_id == k;
            let rj = if j < i { j } else { j - 1 };
            assert(j != i);
            assert(r[rj] == s[j]);
            assert(cells_map(r).contains_key(r[rj].cell_id));
        }
    }
    assert forall|k: u32| #[trigger] cells_map(r).contains_key(k) implies cells_map(r)[k]
        == m[k] by {
        let j = choose|j: int| 0 <= j < r.len() && r[j].cell_id == k;
        let sj = if j < i { j } else { j + 1 };
        assert(r[j] == s[sj]);
        assert(cells_map(r)[r[j].cell_id] == r[j]);
        assert(cells_map(s)[s[sj].cell_id] == s[sj]);
    }
    assert(cells_map(r) =~= m);
}

/// The state of the game's world: the match constants and the cells.
pub struct WorldState {
    properties: WorldProperties,
    cells: Vec<Cell>,
}

impl WorldState {
    /// The cells, keyed by identifier.
    pub closed spec fn cells_view(&self) -> Map<u32, Cell> {
        cells_map(self.cells@)
    }

    /// The match constants.
    pub closed spec fn props(&self) -> WorldProperties {
        self.properties
    }

    /// Every cell is held once.
    pub closed spec fn wf(&self) -> bool {
        ids_unique(self.cells@)
    }

    /// Every cell is held under its own identifier, so each cell of the world
    /// is either ours or the enemy's, and not both.
    pub proof fn lemma_keys(&self)
        requires
            self.wf(),
        ensures
            forall|k: u32| #[trigger]
                self.cells_view().contains_key(k) ==> self.cells_view()[k].cell_id == k,
            forall|k: u32| #[trigger]
                self.cells_view().contains_key(k) ==> (self.is_mine(self.cells_view()[k])
                    != self.is_theirs(self.cells_view()[k])),
    {
        lemma_cells_map(self.cells@);
        assert forall|k: u32| #[trigger]
            self.cells_view().contains_key(k) implies self.cells_view()[k].cell_id == k by {
            let j = choose|j: int| 0 <= j < self.cells@.len() && self.cells@[j].cell_id == k;
            assert(self.cells_view()[self.cells@[j].cell_id] == self.cells@[j]);
        }
    }

    /// Whether `c` is a cell of this world that belongs to our team.
    pub open spec fn is_mine(&self, c: Cell) -> bool {
        &&& self.cells_view().contains_key(c.cell_id)
        &&& self.cells_view()[c.cell_id] == c
        &&& c.team_id == self.props().my_team_id
    }

    /// Whether `c` is a cell of this world that belongs to another team.
    pub open spec fn is_theirs(&self, c: Cell) -> bool {
        &&& self.cells_view().contains_key(c.cell_id)
        &&& self.cells_view()[c.cell_id] == c
        &&& c.team_id != self.props().my_team_id
    }

    /// A world with the given constants and no cells.
    pub fn with_properties(properties: WorldProperties) -> (r: WorldState)
        ensures
            r.wf(),
            r.props() == properties,
            r.cells_view() == Map::<u32, Cell>::empty(),
    {
        WorldState { properties, cells: Vec::new() }
    }

    /// The index of the cell with identifier `cell_id`, if there is one.
    fn index_of(&self, cell_id: u32) -> (r: Option<usize>)
        requires
            self.wf(),
        ensures
            r matches Some(i) ==> i < self.cells@.len() && self.cells@[i as int].cell_id == cell_id,
            r is None ==> !self.cells_view().contains_key(cell_id),
    {
        let mut i: usize = 0;
        while i < self.cells.len()
            invariant
                i <= self.cells@.len(),
                forall|j: int| 0 <= j < i ==> self.cells@[j].cell_id != cell_id,
            decreases self.cells@.len() - i,
        {
            if self.cells[i].cell_id == cell_id {
                return Some(i);
            }
            i = i + 1;
        }
        proof {
            lemma_cells_map(self.cells@);
        }
        None
    }

    /// The cell with identifier `cell_id`, if there is one.
    pub fn get(&self, cell_id: u32) -> (r: Option<&Cell>)
        requires
            self.wf(),
        ensures
            r == if self.cells_view().contains_key(cell_id) {
                Some(&self.cells_view()[cell_id])
            } else {
                None
            },
            r matches Some(c) ==> c.cell_id == cell_id,
    {
        proof {
            lemma_cells_map(self.cells@);
        }
        match self.index_of(cell_id) {
            Some(i) => Some(&self.cells[i]),
            None => None,
        }
    }

    /// Takes the cell with identifier `cell_id` out; tells whether it was
    /// there.
    pub fn remove_cell(&mut self, cell_id: u32) -> (r: bool)
        requires
            old(self).wf(),
        ensures
            final(self).wf(),
            r == old(self).cells_view().contains_key(cell_id),
            final(self).cells_view() == old(self).cells_view().remove(cell_id),
            final(self).props() == old(self).props(),
    {
        match self.index_of(cell_id) {
            Some(i) => {
                proof {
                    lemma_cells_map(self.cells@);
                    lemma_cells_map_remove(self.cells@, i as int);
                }
                self.cells.remove(i);
                true
            },
            None => {
                assert(self.cells_view().remove(cell_id) =~= self.cells_view());
                false
            },
        }
    }

    /// Puts `cell` in under its identifier, in place of any cell held there.
    pub fn insert_cell(&mut self, cell: Cell)
        requires
            old(self).wf(),
        ensures
            final(self).wf(),
            final(self).cells_view() == old(self).cells_view().insert(cell.cell_id, cell),
            final(self).props() == old(self).props(),
    {
        self.remove_cell(cell.cell_id);
        let ghost before = self.cells@;
        proof {
            lemma_cells_map(before);
        }
        self.cells.push(cell);
        assert(self.cells@.drop_last() =~= before);
        assert(ids_unique(self.cells@)) by {
            assert forall|a: int, b: int|
                0 <= a < self.cells@.len() && 0 <= b < self.cells@.len() && a != b implies
                #[trigger] self.cells@[a].cell_id != #[trigger] self.cells@[b].cell_id by {
                if a < before.len() {
                    assert(self.cells@[a] == before[a]);
                }
                if b < before.len() {
                    assert(self.cells@[b] == before[b]);
                }
            }
        }
        assert(old(self).cells_view().remove(cell.cell_id).insert(cell.cell_id, cell)
            =~= old(self).cells_view().insert(cell.cell_id, cell));
    }

    /// The width of the world, in number of squares.
    pub fn width(&self) -> (r: u32)
        ensures
            r == self.props().width,
    {
        self.properties.width
    }

    /// The height of the world, in number of squares.
    pub fn height(&self) -> (r: u32)
        ensures
            r == self.props().height,
    {
        self.properties.height
    }

    /// The identifier of our team.
    pub fn my_team_id(&self) -> (r: u32)
        ensures
            r == self.props().my_team_id,
    {
        self.properties.my_team_id
    }

    /// The column in which our cells spawn.
    pub fn my_starting_column(&self) -> (r: u32)
        ensures
            r == self.props().my_column,
    {
        self.properties.my_column
    }

    /// The column in which the enemy's cells spawn.
    pub fn enemy_starting_column(&self) -> (r: u32)
        ensures
            r == self.props().enemy_column,
    {
        self.properties.enemy_column
    }

    /// The cells of one side: ours when `mine`, the others' otherwise.
    fn cells_of_side(&self, mine: bool) -> (r: Vec<&Cell>)
        requires
            self.wf(),
        ensures
            r@.no_duplicates(),
            forall|c: Cell|
                r@.contains(&c) <==> if mine {
                    self.is_mine(c)
                } else {
                    self.is_theirs(c)
                },
    {
        let mut out: Vec<&Cell> = Vec::new();
        let mut i: usize = 0;
        while i < self.cells.len()
            invariant
                i <= self.cells@.len(),
                ids_unique(self.cells@),
                out@.no_duplicates(),
                forall|c: Cell|
                    out@.contains(&c) <==> exists|j: int|
                        0 <= j < i && self.cells@[j] == c && (c.team_id
                            == self.properties.my_team_id) == mine,
            decreases self.cells@.len() - i,
        {
            let c = &self.cells[i];
            if (c.team_id == self.properties.my_team_id) == mine {
                let ghost before = out@;
                assert(!before.contains(c)) by {
                    if before.contains(c) {
                        let j = choose|j: int|
                            0 <= j < i && self.cells@[j] == *c && (c.team_id
                                == self.properties.my_team_id) == mine;
                        assert(self.cells@[j].cell_id == self.cells@[i as int].cell_id);
                    }
                }
                out.push(c);
                assert(out@.no_duplicates()) by {
                    assert forall|a: int, b: int|
                        0 <= a < out@.len() && 0 <= b < out@.len() && a != b implies out@[a]
                        != out@[b] by {
                        if a < before.len() && b < before.len() {
                            assert(out@[a] == before[a] && out@[b] == before[b]);
                        } else if a < before.len() {
                            assert(out@[a] == before[a]);
                        } else if b < before.len() {
                            assert(out@[b] == before[b]);
                        }
                    }
                }
                assert forall|d: Cell|
                    out@.contains(&d) <==> exists|j: int|
                        0 <= j < i + 1 && self.cells@[j] == d && (d.team_id
                            == self.properties.my_team_id) == mine by {
                    if out@.contains(&d) && d != *c {
                        let k = choose|k: int| 0 <= k < out@.len() && out@[k] == &d;
                        assert(before[k] == &d);
                        assert(before.contains(&d));
                    }
                    if d == *c {
                        assert(out@[out@.len() - 1] == &d);
                        assert(self.cells@[i as int] == d);
                    }
                    if exists|j: int|
                        0 <= j < i && self.cells@[j] == d && (d.team_id
                            == self.properties.my_team_id) == mine {
                        assert(before.contains(&d));
                        let k = choose|k: int| 0 <= k < before.len() && before[k] == &d;
                        assert(out@[k] == &d);
                    }
                }
            }
            i = i + 1;
        }
        proof {
            lemma_cells_map(self.cells@);
            assert forall|c: Cell|
                (exists|j: int|
                    0 <= j < self.cells@.len() && self.cells@[j] == c && (c.team_id
                        == self.properties.my_team_id) == mine) <==> if mine {
                    self.is_mine(c)
                } else {
                    self.is_theirs(c)
                } by {
                if self.cells_view().contains_key(c.cell_id) && self.cells_view()[c.cell_id] == c {
                    let j = choose|j: int|
                        0 <= j < self.cells@.len() && self.cells@[j].cell_id == c.cell_id;
                    assert(self.cells_view()[self.cells@[j].cell_id] == self.cells@[j]);
                }
            }
        }
        out
    }

    /// Gets all of the cells we control.
    pub fn my_cells(&self) -> (r: Vec<&Cell>)
        requires
            self.wf(),
        ensures
            r@.no_duplicates(),
            forall|c: Cell| r@.contains(&c) <==> self.is_mine(c),
    {
        self.cells_of_side(true)
    }

    /// Gets all of the cells the enemy controls.
    pub fn enemy_cells(&self) -> (r: Vec<&Cell>)
        requires
            self.wf(),
        ensures
            r@.no_duplicates(),
            forall|c: Cell| r@.contains(&c) <==> self.is_theirs(c),
    {
        self.cells_of_side(false)
    }
}

} // verus!
