//! The game engine: player position, goal set, move counter, win flag, and
//! the move-resolution rules that compose board operations into player and
//! crate movement.

use vstd::prelude::*;
use vstd::arithmetic::div_mod::{
    lemma_fundamental_div_mod,
    lemma_fundamental_div_mod_converse,
    lemma_mod_pos_bound,
};
use vstd::string::StringExecFns;
use vstd::pervasive::VecAdditionalExecFns;
use crate::board::{lemma_idx_bound, lemma_idx_injective, Board, Entity, Offset, Position};

verus! {

pub const WIDTH: usize = 10;

pub const HEIGHT: usize = 10;

/// The entity a level character stands for, if it is recognized.
pub open spec fn char_entity(c: char) -> Option<Entity> {
    if c == '@' {
        Some(Entity::Player)
    } else if c == '#' {
        Some(Entity::Wall)
    } else if c == 'o' {
        Some(Entity::Crate)
    } else if c == ' ' {
        Some(Entity::Floor)
    } else {
        None
    }
}

/// The plain rendering glyph of an entity; inverse of `char_entity` on
/// recognized characters.
pub open spec fn glyph(e: Entity) -> char {
    match e {
        Entity::Player => '@',
        Entity::Wall => '#',
        Entity::Crate => 'o',
        Entity::Floor => ' ',
    }
}

/// The rendering glyph of an entity standing on a goal cell.
pub open spec fn goal_glyph(e: Entity) -> char {
    match e {
        Entity::Crate => 'O',
        Entity::Player => '@',
        _ => 'g',
    }
}

/// A loadable level string: one recognized character per cell of the full
/// grid, and exactly one player.
pub open spec fn level_ok(s: Seq<char>) -> bool {
    &&& s.len() == WIDTH * HEIGHT
    &&& forall|i: int| 0 <= i < s.len() ==> (#[trigger] char_entity(s[i])) is Some
    &&& exists|i: int| 0 <= i < s.len() && (#[trigger] s[i]) == '@'
    &&& forall|i: int, j: int|
        0 <= i < s.len() && 0 <= j < s.len() && (#[trigger] s[i]) == '@' && (#[trigger] s[j])
            == '@' ==> i == j
}

/// One game: the board, the player's cell, the goal cells, a move counter,
/// and the running flag that turns false once the game is won.
pub struct State {
    pub board: Board,
    pub player_pos: Position,
    pub goals: Vec<Position>,
    pub moves: usize,
    pub running: bool,
}

impl State {
    /// Well-formedness: the board stores one entity per cell, the player's
    /// recorded position is on the board and holds the player entity, no
    /// other cell does, and every goal is on the board.
    pub open spec fn wf(self) -> bool {
        &&& self.board.wf()
        &&& self.board.in_bounds(self.player_pos)
        &&& self.board.tile(self.player_pos) == Entity::Player
        &&& forall|i: int|
            0 <= i < self.board@.len() && (#[trigger] self.board@[i]) == Entity::Player ==> i
                == self.board.idx(self.player_pos)
        &&& forall|i: int|
            0 <= i < self.goals@.len() ==> self.board.in_bounds(#[trigger] self.goals@[i])
    }

    /// Whether `p` is one of the goal cells.
    pub open spec fn is_goal(self, p: Position) -> bool {
        exists|i: int| 0 <= i < self.goals@.len() && (#[trigger] self.goals@[i]) == p
    }

    /// The win condition: every goal cell currently holds a crate.
    pub open spec fn all_goals_covered(self) -> bool {
        forall|i: int|
            0 <= i < self.goals@.len() ==> self.board.tile(#[trigger] self.goals@[i])
                == Entity::Crate
    }

    /// Where the player lands when stepping by `o`.
    pub open spec fn next_pos(self, o: Offset) -> Position {
        self.player_pos.spec_step(o)
    }

    /// Whether the attempted step, and the push it may trigger, both stay on
    /// the board.
    pub open spec fn step_applicable(self, o: Offset) -> bool {
        &&& self.board.can_step(self.player_pos, o)
        &&& self.board.tile(self.next_pos(o)) == Entity::Crate ==> self.board.can_step(
            self.next_pos(o),
            o,
        )
    }

    /// Whether the step runs into a wall, a player, or an unpushable crate.
    pub open spec fn move_blocked(self, o: Offset) -> bool {
        match self.board.tile(self.next_pos(o)) {
            Entity::Floor => false,
            Entity::Crate => self.board.tile(self.next_pos(o).spec_step(o)) != Entity::Floor,
            Entity::Wall => true,
            Entity::Player => true,
        }
    }

    /// The transition relation of one resolved move from `pre` to `post`:
    /// a blocked attempt costs one move and changes nothing else; a step onto
    /// floor moves the player for one move; a successful push moves crate and
    /// player for two moves; afterwards the game is won exactly when every
    /// goal holds a crate.
    pub open spec fn move_spec(pre: State, post: State, o: Offset) -> bool {
        let source = pre.player_pos;
        let next = pre.next_pos(o);
        let beyond = next.spec_step(o);
        &&& post.board.width == pre.board.width
        &&& post.board.height == pre.board.height
        &&& post.goals@ == pre.goals@
        &&& pre.move_blocked(o) ==> post.board@ == pre.board@ && post.player_pos == source
            && post.moves == pre.moves + 1
        &&& pre.board.tile(next) == Entity::Floor ==> post.board@ == pre.board@.update(
            pre.board.idx(source),
            Entity::Floor,
        ).update(pre.board.idx(next), Entity::Player) && post.player_pos == next && post.moves
            == pre.moves + 1
        &&& pre.board.tile(next) == Entity::Crate && pre.board.tile(beyond) == Entity::Floor
            ==> post.board@ == pre.board@.update(pre.board.idx(source), Entity::Floor).update(
            pre.board.idx(next),
            Entity::Player,
        ).update(pre.board.idx(beyond), Entity::Crate) && post.player_pos == next && post.moves
            == pre.moves + 2
        &&& post.running == (if post.all_goals_covered() {
            false
        } else {
            pre.running
        })
    }

    /// A fresh default game: an all-floor grid, the player recorded at the
    /// origin, one goal cell, no moves taken. No cell holds the player entity
    /// yet; `load` overlays the level and establishes `wf`.
    pub fn new() -> (s: State)
        ensures
            s.board.width == WIDTH,
            s.board.height == HEIGHT,
            s.board.wf(),
            forall|i: int| 0 <= i < s.board@.len() ==> s.board@[i] == Entity::Floor,
            s.player_pos == (Position { x: 0, y: 0 }),
            s.goals@.len() == 1,
            s.goals@[0] == (Position { x: 1, y: 1 }),
            s.moves == 0,
            s.running == true,
    {
        let mut goals: Vec<Position> = Vec::new();
        goals.push(Position::new(1, 1));
        State {
            board: Board::new(WIDTH, HEIGHT),
            player_pos: Position::new(0, 0),
            goals: goals,
            moves: 0,
            running: true,
        }
    }

    /// Builds a game from a level string: one character per cell, row-major.
    /// A string of the wrong length, with an unrecognized character, or
    /// without exactly one player is rejected; accepting a level without a
    /// unique player would leave the recorded player position pointing at a
    /// cell that does not hold the player.
    pub fn load(x: &str) -> (r: Option<State>)
        ensures
            r is Some <==> level_ok(x@),
            r matches Some(st) ==> st.wf(),
            r matches Some(st) ==> st.board.width == WIDTH && st.board.height == HEIGHT,
            r matches Some(st) ==> forall|i: int|
                0 <= i < x@.len() ==> (#[trigger] char_entity(x@[i])) == Some(st.board@[i]),
            r matches Some(st) ==> x@[st.board.idx(st.player_pos)] == '@',
            r matches Some(st) ==> st.goals@.len() == 1 && st.goals@[0] == (Position {
                x: 1,
                y: 1,
            }),
            r matches Some(st) ==> st.moves == 0 && st.running == true,
    {
        let n = x.unicode_len();
        if n != WIDTH * HEIGHT {
            return None;
        }
        let mut st = State::new();
        let mut player: Option<usize> = None;
        let mut i: usize = 0;
        while i < WIDTH * HEIGHT
            invariant
                x@.len() == WIDTH * HEIGHT,
                i <= WIDTH * HEIGHT,
                st.board.width == WIDTH,
                st.board.height == HEIGHT,
                st.board.wf(),
                st.goals@.len() == 1,
                st.goals@[0] == (Position { x: 1, y: 1 }),
                st.moves == 0,
                st.running == true,
                forall|j: int|
                    0 <= j < i ==> (#[trigger] char_entity(x@[j])) == Some(st.board@[j]),
                player is Some <==> exists|j: int| 0 <= j < i && (#[trigger] x@[j]) == '@',
                player matches Some(pi) ==> pi < i && x@[pi as int] == '@',
                forall|j: int| 0 <= j < i && (#[trigger] x@[j]) == '@' ==> player == Some(j as usize),
            decreases WIDTH * HEIGHT - i,
        {
            let c = x.get_char(i);
            let e: Entity;
            if c == '@' {
                if player.is_some() {
                    proof {
                        let prev = player->Some_0 as int;
                        assert(x@[prev] == '@' && x@[i as int] == '@' && prev < i);
                        assert(!level_ok(x@));
                    }
                    return None;
                }
                player = Some(i);
                e = Entity::Player;
            } else if c == '#' {
                e = Entity::Wall;
            } else if c == 'o' {
                e = Entity::Crate;
            } else if c == ' ' {
                e = Entity::Floor;
            } else {
                proof {
                    assert(char_entity(x@[i as int]) is None);
                    assert(!level_ok(x@));
                }
                return None;
            }
            st.board.entities.set(i, e);
            i = i + 1;
        }
        match player {
            None => {
                proof {
                    assert(forall|j: int|
                        0 <= j < x@.len() ==> (#[trigger] x@[j]) != '@');
                    assert(!level_ok(x@));
                }
                None
            },
            Some(pi) => {
                st.player_pos = Position::new(pi % WIDTH, pi / WIDTH);
                proof {
                    lemma_mod_pos_bound(pi as int, WIDTH as int);
                    lemma_fundamental_div_mod(pi as int, WIDTH as int);
                    assert((pi as int / WIDTH as int) * (WIDTH as int) == (WIDTH as int) * (
                    pi as int / WIDTH as int)) by (nonlinear_arith);
                    assert(st.board.in_bounds(st.player_pos));
                    assert(st.board.idx(st.player_pos) == pi as int);
                    assert(char_entity(x@[pi as int]) == Some(st.board@[pi as int]));
                    assert(st.board.tile(st.player_pos) == Entity::Player);
                    assert forall|j: int|
                        0 <= j < st.board@.len() && (#[trigger] st.board@[j])
                            == Entity::Player implies j == st.board.idx(st.player_pos) by {
                        assert(char_entity(x@[j]) == Some(st.board@[j]));
                        assert(x@[j] == '@');
                    }
                    assert(st.wf());
                    assert(level_ok(x@));
                }
                Some(st)
            },
        }
    }

    /// Moves whatever stands at `pos` one step along `offset`, if the
    /// destination is floor; reports whether it moved.
    pub fn move_thing(&mut self, pos: Position, offset: Offset) -> (moved: bool)
        requires
            old(self).board.wf(),
            old(self).board.in_bounds(pos),
            old(self).board.can_step(pos, offset),
        ensures
            final(self).board.width == old(self).board.width,
            final(self).board.height == old(self).board.height,
            final(self).board.wf(),
            final(self).player_pos == old(self).player_pos,
            final(self).goals@ == old(self).goals@,
            final(self).moves == old(self).moves,
            final(self).running == old(self).running,
            moved == (old(self).board.tile(pos.spec_step(offset)) == Entity::Floor),
            moved ==> final(self).board@ == old(self).board@.update(
                old(self).board.idx(pos),
                Entity::Floor,
            ).update(old(self).board.idx(pos.spec_step(offset)), old(self).board.tile(pos)),
            !moved ==> final(self).board@ == old(self).board@,
    {
        let next_pos = pos.offset(offset);
        match *self.board.tile_at(next_pos) {
            Entity::Floor => {
                self.board.swap_tile(pos, next_pos);
                true
            },
            _ => false,
        }
    }

    /// Resolves one move of the player along `offset`: stepping onto floor
    /// moves the player; stepping onto a crate pushes it when the cell beyond
    /// is floor, which costs a second move; anything else is blocked. Every
    /// attempt costs one move, and afterwards the game is won exactly when
    /// every goal holds a crate. Steps that would leave the grid are a caller
    /// error here; `try_move_player` treats them as blocked instead.
    pub fn move_player(&mut self, offset: Offset)
        requires
            old(self).wf(),
            old(self).moves + 2 <= usize::MAX,
            old(self).step_applicable(offset),
        ensures
            final(self).wf(),
            State::move_spec(*old(self), *final(self), offset),
    {
        let ghost pre = *self;
        let old_pos = self.player_pos;
        let next_pos = old_pos.offset(offset);
        self.moves = self.moves + 1;
        let t = *self.board.tile_at(next_pos);
        match t {
            Entity::Floor => {
                self.move_thing(old_pos, offset);
                self.player_pos = next_pos;
                proof {
                    assert(next_pos != old_pos);
                    lemma_idx_bound(
                        pre.board.width as int,
                        pre.board.height as int,
                        old_pos.x as int,
                        old_pos.y as int,
                    );
                    lemma_idx_bound(
                        pre.board.width as int,
                        pre.board.height as int,
                        next_pos.x as int,
                        next_pos.y as int,
                    );
                    lemma_idx_injective(
                        pre.board.width as int,
                        old_pos.x as int,
                        old_pos.y as int,
                        next_pos.x as int,
                        next_pos.y as int,
                    );
                    assert(self.board.tile(next_pos) == Entity::Player);
                    assert forall|i: int|
                        0 <= i < self.board@.len() && (#[trigger] self.board@[i])
                            == Entity::Player implies i == self.board.idx(next_pos) by {
                        if i != pre.board.idx(old_pos) && i != pre.board.idx(next_pos) {
                            assert(self.board@[i] == pre.board@[i]);
                        }
                    }
                    assert(self.wf());
                }
            },
            Entity::Crate => {
                let pushed = self.move_thing(next_pos, offset);
                if pushed {
                    self.moves = self.moves + 1;
                    proof {
                        let beyond = next_pos.spec_step(offset);
                        assert(next_pos != old_pos);
                        assert(offset.x != 0 || offset.y != 0);
                        assert(beyond != next_pos && beyond != old_pos);
                        lemma_idx_bound(
                            pre.board.width as int,
                            pre.board.height as int,
                            old_pos.x as int,
                            old_pos.y as int,
                        );
                        lemma_idx_bound(
                            pre.board.width as int,
                            pre.board.height as int,
                            next_pos.x as int,
                            next_pos.y as int,
                        );
                        lemma_idx_bound(
                            pre.board.width as int,
                            pre.board.height as int,
                            beyond.x as int,
                            beyond.y as int,
                        );
                        lemma_idx_injective(
                            pre.board.width as int,
                            old_pos.x as int,
                            old_pos.y as int,
                            next_pos.x as int,
                            next_pos.y as int,
                        );
                        lemma_idx_injective(
                            pre.board.width as int,
                            old_pos.x as int,
                            old_pos.y as int,
                            beyond.x as int,
                            beyond.y as int,
                        );
                        lemma_idx_injective(
                            pre.board.width as int,
                            next_pos.x as int,
                            next_pos.y as int,
                            beyond.x as int,
                            beyond.y as int,
                        );
                        assert(self.board.tile(next_pos) == Entity::Floor);
                        assert(self.board.tile(old_pos) == Entity::Player);
                    }
                    self.move_thing(old_pos, offset);
                    self.player_pos = next_pos;
                    proof {
                        let beyond = next_pos.spec_step(offset);
                        assert(self.board@ =~= pre.board@.update(
                            pre.board.idx(old_pos),
                            Entity::Floor,
                        ).update(pre.board.idx(next_pos), Entity::Player).update(
                            pre.board.idx(beyond),
                            Entity::Crate,
                        ));
                        assert(self.board.tile(next_pos) == Entity::Player);
                        assert forall|i: int|
                            0 <= i < self.board@.len() && (#[trigger] self.board@[i])
                                == Entity::Player implies i == self.board.idx(next_pos) by {
                            if i != pre.board.idx(old_pos) && i != pre.board.idx(next_pos) && i
                                != pre.board.idx(beyond) {
                                assert(self.board@[i] == pre.board@[i]);
                            }
                        }
                        assert(self.wf());
                    }
                }
            },
            Entity::Wall => {},
            Entity::Player => {},
        }
        let covered = self.check_goals();
        if covered {
            self.running = false;
        }
        proof {
            assert(State::move_spec(pre, *self, offset));
        }
    }

    /// Resolves one move like `move_player`, but treats a step that would
    /// leave the grid — for the player or for a pushed crate — as an ordinary
    /// blocked move: the attempt still costs one move and the win condition
    /// is still evaluated. Reports whether the step stayed on the grid.
    pub fn try_move_player(&mut self, offset: Offset) -> (applicable: bool)
        requires
            old(self).wf(),
            old(self).moves + 2 <= usize::MAX,
        ensures
            final(self).wf(),
            applicable == old(self).step_applicable(offset),
            applicable ==> State::move_spec(*old(self), *final(self), offset),
            !applicable ==> ({
                &&& final(self).board@ == old(self).board@
                &&& final(self).player_pos == old(self).player_pos
                &&& final(self).goals@ == old(self).goals@
                &&& final(self).moves == old(self).moves + 1
                &&& final(self).board.width == old(self).board.width
                &&& final(self).board.height == old(self).board.height
                &&& final(self).running == (if final(self).all_goals_covered() {
                    false
                } else {
                    old(self).running
                })
            }),
    {
        let blocked_off_grid: bool;
        match self.board.try_offset(self.player_pos, offset) {
            None => {
                blocked_off_grid = true;
            },
            Some(next) => {
                match *self.board.tile_at(next) {
                    Entity::Crate => {
                        blocked_off_grid = self.board.try_offset(next, offset).is_none();
                    },
                    _ => {
                        blocked_off_grid = false;
                    },
                }
            },
        }
        if blocked_off_grid {
            self.moves = self.moves + 1;
            let covered = self.check_goals();
            if covered {
                self.running = false;
            }
            false
        } else {
            self.move_player(offset);
            true
        }
    }

    /// Whether every goal cell currently holds a crate.
    pub fn check_goals(&self) -> (r: bool)
        requires
            self.board.wf(),
            forall|i: int|
                0 <= i < self.goals@.len() ==> self.board.in_bounds(#[trigger] self.goals@[i]),
        ensures
            r == self.all_goals_covered(),
    {
        let mut k: usize = 0;
        while k < self.goals.len()
            invariant
                k <= self.goals@.len(),
                self.board.wf(),
                forall|i: int|
                    0 <= i < self.goals@.len() ==> self.board.in_bounds(#[trigger] self.goals@[i]),
                forall|j: int|
                    0 <= j < k ==> self.board.tile(#[trigger] self.goals@[j]) == Entity::Crate,
            decreases self.goals@.len() - k,
        {
            let g = self.goals[k];
            if *self.board.tile_at(g) != Entity::Crate {
                return false;
            }
            k = k + 1;
        }
        true
    }

    /// The character a cell is rendered as: a goal cell prefers its goal
    /// glyph, any other cell shows its plain entity glyph.
    pub open spec fn rendered_char(self, p: Position) -> char {
        if self.is_goal(p) {
            goal_glyph(self.board.tile(p))
        } else {
            glyph(self.board.tile(p))
        }
    }

    /// The character at offset `j` of the rendered text: each row of the
    /// grid, followed by a newline.
    pub open spec fn render_char_at(self, j: int) -> char {
        let w1 = self.board.width as int + 1;
        if j % w1 == self.board.width as int {
            '\n'
        } else {
            self.rendered_char(Position { x: (j % w1) as usize, y: (j / w1) as usize })
        }
    }

    /// Renders the board as one character per cell, row-major, a newline
    /// after each row.
    pub fn render(&self) -> (out: String)
        requires
            self.board.wf(),
        ensures
            out@.len() == self.board.height * (self.board.width as int + 1),
            forall|j: int| 0 <= j < out@.len() ==> (#[trigger] out@[j]) == self.render_char_at(j),
    {
        let mut out = String::new();
        let mut y: usize = 0;
        while y < self.board.height
            invariant
                self.board.wf(),
                y <= self.board.height,
                out@.len() == y * (self.board.width as int + 1),
                forall|j: int| 0 <= j < out@.len() ==> (#[trigger] out@[j]) == self.render_char_at(j),
            decreases self.board.height - y,
        {
            let mut x: usize = 0;
            while x < self.board.width
                invariant
                    self.board.wf(),
                    y < self.board.height,
                    x <= self.board.width,
                    out@.len() == y * (self.board.width as int + 1) + x,
                    forall|j: int|
                        0 <= j < out@.len() ==> (#[trigger] out@[j]) == self.render_char_at(j),
                decreases self.board.width - x,
            {
                let p = Position::new(x, y);
                let e = *self.board.tile_at(p);
                let on_goal = self.contains_goal(p);
                let c: &str = if on_goal {
                    match e {
                        Entity::Crate => "O",
                        Entity::Player => "@",
                        _ => "g",
                    }
                } else {
                    match e {
                        Entity::Player => "@",
                        Entity::Wall => "#",
                        Entity::Crate => "o",
                        Entity::Floor => " ",
                    }
                };
                out.append(c);
                proof {
                    reveal_strlit("O");
                    reveal_strlit("@");
                    reveal_strlit("g");
                    reveal_strlit("#");
                    reveal_strlit("o");
                    reveal_strlit(" ");
                    let w1 = self.board.width as int + 1;
                    let j = y * w1 + x;
                    lemma_fundamental_div_mod_converse(j, w1, y as int, x as int);
                    assert(c@.len() == 1);
                    assert(out@[j] == c@[0]);
                    assert(out@[j] == self.render_char_at(j));
                }
                x = x + 1;
            }
            out.append("\n");
            proof {
                reveal_strlit("\n");
                let w1 = self.board.width as int + 1;
                let j = y * w1 + self.board.width as int;
                lemma_fundamental_div_mod_converse(j, w1, y as int, self.board.width as int);
                assert(out@[j] == '\n');
                assert(out@[j] == self.render_char_at(j));
                assert((y + 1) * w1 == y * w1 + w1) by (nonlinear_arith);
            }
            y = y + 1;
        }
        out
    }

    /// The goal-membership test the renderer needs.
    pub fn contains_goal(&self, p: Position) -> (r: bool)
        ensures
            r == self.is_goal(p),
    {
        let mut k: usize = 0;
        while k < self.goals.len()
            invariant
                k <= self.goals@.len(),
                forall|j: int| 0 <= j < k ==> (#[trigger] self.goals@[j]) != p,
            decreases self.goals@.len() - k,
        {
            let g = self.goals[k];
            if g == p {
                return true;
            }
            k = k + 1;
        }
        false
    }
}

/// Round trip: a board loaded from a level string renders back to that very
/// string, row by row with a newline after each, as long as no goal cell is
/// marked (goal cells prefer goal glyphs over plain ones). The premises are
/// exactly what `load` ensures about the board of a loaded state.
pub proof fn lemma_load_render_round_trip(st: State, s: Seq<char>)
    requires
        st.board.width == WIDTH,
        st.board.height == HEIGHT,
        st.board.wf(),
        s.len() == WIDTH * HEIGHT,
        forall|i: int| 0 <= i < s.len() ==> (#[trigger] char_entity(s[i])) == Some(st.board@[i]),
        st.goals@.len() == 0,
    ensures
        forall|j: int|
            0 <= j < HEIGHT * (WIDTH as int + 1) ==> (#[trigger] st.render_char_at(j)) == (
            if j % (WIDTH as int + 1) == WIDTH as int {
                '\n'
            } else {
                s[(j / (WIDTH as int + 1)) * WIDTH as int + j % (WIDTH as int + 1)]
            }),
{
    assert forall|j: int| 0 <= j < HEIGHT * (WIDTH as int + 1) implies (
    #[trigger] st.render_char_at(j)) == (if j % (WIDTH as int + 1) == WIDTH as int {
        '\n'
    } else {
        s[(j / (WIDTH as int + 1)) * WIDTH as int + j % (WIDTH as int + 1)]
    }) by {
        let w1 = WIDTH as int + 1;
        lemma_mod_pos_bound(j, w1);
        lemma_fundamental_div_mod(j, w1);
        let x = j % w1;
        let y = j / w1;
        if x != WIDTH as int {
            let p = Position { x: x as usize, y: y as usize };
            assert(st.board.in_bounds(p));
            lemma_idx_bound(WIDTH as int, HEIGHT as int, x, y);
            assert(!st.is_goal(p));
            let i = st.board.idx(p);
            assert(char_entity(s[i]) == Some(st.board@[i]));
            assert(glyph(st.board.tile(p)) == s[i]);
            assert(st.render_char_at(j) == s[y * WIDTH as int + x]);
        }
    }
}

} // verus!
