use vstd::prelude::*;
use crate::display::shape::ArrowDir;
use crate::io::Event;
use crate::pages::Pages;

verus! {

/// Cells of the 15 x 15 playing field.
pub const FIELD_LEN: usize = 225;

/// The snake game. A cell of the field holds 0 when empty, 1 for the apple, and from 2 for the
/// snake: 2 is the head, each cell further back one more.
pub struct GameState {
    pub curr_pos: (u8, u8),
    pub field: [u8; 225],
    pub game_lost: bool,
    pub game_won: bool,
    pub snake_len: u8,
    pub curr_dir: ArrowDir,
    pub menu_active: bool,
    pub menu_item: u8,
}

/// The number of a direction: up 0, right 1, down 2, left 3.
pub open spec fn dir_number(dir: ArrowDir) -> int {
    match dir {
        ArrowDir::Up => 0,
        ArrowDir::Right => 1,
        ArrowDir::Down => 2,
        ArrowDir::Left => 3,
    }
}

/// The two directions the snake can turn to: up chooses the first, down the second.
pub open spec fn possible_dirs(dir: ArrowDir) -> (ArrowDir, ArrowDir) {
    match dir {
        ArrowDir::Up => (ArrowDir::Left, ArrowDir::Right),
        ArrowDir::Right => (ArrowDir::Up, ArrowDir::Down),
        ArrowDir::Down => (ArrowDir::Right, ArrowDir::Left),
        ArrowDir::Left => (ArrowDir::Down, ArrowDir::Up),
    }
}

/// The direction after event `ev`: up and down turn, anything else keeps the heading.
pub open spec fn turned(ev: Event, dir: ArrowDir) -> ArrowDir {
    if ev == Event::BtnUp {
        possible_dirs(dir).0
    } else if ev == Event::BtnDown {
        possible_dirs(dir).1
    } else {
        dir
    }
}

/// One step from `pos` in `dir`, or the wall: `(x, y, hit_wall)`; the position stays when the
/// wall is hit.
pub open spec fn stepped(dir: ArrowDir, pos: (u8, u8)) -> (u8, u8, bool) {
    match dir {
        ArrowDir::Up => if pos.1 == 0 {
            (pos.0, pos.1, true)
        } else {
            (pos.0, (pos.1 - 1) as u8, false)
        },
        ArrowDir::Right => if pos.0 >= 14 {
            (pos.0, pos.1, true)
        } else {
            ((pos.0 + 1) as u8, pos.1, false)
        },
        ArrowDir::Down => if pos.1 >= 14 {
            (pos.0, pos.1, true)
        } else {
            (pos.0, (pos.1 + 1) as u8, false)
        },
        ArrowDir::Left => if pos.0 == 0 {
            (pos.0, pos.1, true)
        } else {
            ((pos.0 - 1) as u8, pos.1, false)
        },
    }
}

/// The cell a neighbour of `block` in direction `dir`; the field wraps around at its edges.
pub open spec fn neighbour(block: int, dir: ArrowDir) -> int {
    match dir {
        ArrowDir::Up => if block < 15 {
            210 + block
        } else {
            block - 15
        },
        ArrowDir::Right => if block % 15 == 14 {
            block - 14
        } else {
            block + 1
        },
        ArrowDir::Down => if block >= 210 {
            block - 210
        } else {
            block + 15
        },
        ArrowDir::Left => if block % 15 == 0 {
            block + 14
        } else {
            block - 1
        },
    }
}

/// A cell after the snake moves on: its parts age by one and the part past its length goes.
pub open spec fn aged(v: u8, snake_len: int) -> u8 {
    let v1 = if v > 1 {
        v + 1
    } else {
        v as int
    };
    if v1 > snake_len + 1 {
        0
    } else {
        v1 as u8
    }
}

/// The field after the snake moves on.
pub open spec fn aged_field(field: Seq<u8>, snake_len: int) -> Seq<u8> {
    field.map_values(|v: u8| aged(v, snake_len))
}

/// Where the search for the new apple's cell starts: a number made up from the snake's
/// position and heading.
pub open spec fn apple_start(pos: (u8, u8), dir: ArrowDir) -> int {
    ((pos.0 * pos.1 * (dir_number(dir) + 7) + 1) % 15) * 15 + (pos.0 * pos.1 * (dir_number(dir) + 4)
        + 3) % 15
}

/// Which way the search for the apple's cell walks: back for right and left, forward otherwise.
pub open spec fn apple_walk(dir: ArrowDir) -> int {
    if dir_number(dir) % 2 == 1 {
        -1
    } else {
        1
    }
}

/// The `k`-th cell of the walk from `start` in steps of `step`, around the field.
pub open spec fn walk_cell(start: int, step: int, k: int) -> int {
    (start + step * k) % 225
}

/// `n` is the field in which the apple went to `a`, the first empty cell of the walk from the
/// start cell in `field`.
pub open spec fn apple_placed(field: Seq<u8>, start: int, step: int, a: int) -> bool {
    exists|k0: int|
        0 <= k0 && a == #[trigger] walk_cell(start, step, k0) && field[a] == 0 && forall|k: int|
            0 <= k < k0 ==> field[#[trigger] walk_cell(start, step, k)] != 0
}

/// Some cell of the field holds part `v`.
pub open spec fn has_part(field: Seq<u8>, v: int) -> bool {
    exists|i: int| 0 <= i < 225 && #[trigger] field[i] == v
}

impl GameState {
    /// The game's invariant: the snake's head lies on the field, no cell holds a part beyond
    /// the snake's length, at most every cell is snake, and the menu has two items.
    pub open spec fn wf(&self) -> bool {
        &&& self.curr_pos.0 < 15
        &&& self.curr_pos.1 < 15
        &&& 2 <= self.snake_len <= 225
        &&& self.snake_len == 225 ==> self.game_won
        &&& forall|i: int| 0 <= i < 225 ==> #[trigger] self.field@[i] <= self.snake_len + 1
        &&& self.menu_item < 2
    }

    /// The snake lies whole on the field: its parts are numbered from 2, the head, at
    /// `curr_pos` to `snake_len + 1`, each number in exactly one cell.
    pub open spec fn snake_whole(&self) -> bool {
        &&& self.field@[self.curr_pos.1 * 15 + self.curr_pos.0] == 2
        &&& forall|i: int|
            0 <= i < 225 && #[trigger] self.field@[i] >= 2 ==> self.field@[i] <= self.snake_len + 1
        &&& forall|i: int, j: int|
            0 <= i < 225 && 0 <= j < 225 && #[trigger] self.field@[i] >= 2 && self.field@[i]
                == #[trigger] self.field@[j] ==> i == j
        &&& forall|v: int| 2 <= v <= self.snake_len + 1 ==> #[trigger] has_part(self.field@, v)
    }

    /// A new game, in its menu: a snake of two cells heading left from row 12, column 10, and
    /// an apple at row 3, column 10.
    pub fn new() -> (state: GameState)
        ensures
            state.wf(),
            state.snake_whole(),
            state.curr_pos == (10u8, 12u8),
            state.field@ == Seq::new(225, |i: int| if i == 55 {
                1u8
            } else if i == 190 {
                2u8
            } else if i == 191 {
                3u8
            } else {
                0u8
            }),
            !state.game_lost,
            !state.game_won,
            state.snake_len == 2,
            state.curr_dir == ArrowDir::Left,
            state.menu_active,
            state.menu_item == 0,
    {
        let mut state = GameState {
            curr_pos: (10, 12),
            field: [0u8; 225],
            game_lost: false,
            game_won: false,
            snake_len: 2,
            curr_dir: ArrowDir::Left,
            menu_active: true,
            menu_item: 0,
        };
        state.field[55] = 1;
        state.field[190] = 2;
        state.field[191] = 3;
        assert(state.field@ =~= Seq::new(225, |i: int| if i == 55 {
                1u8
            } else if i == 190 {
                2u8
            } else if i == 191 {
                3u8
            } else {
                0u8
            }));
        assert(has_part(state.field@, 2)) by {
            assert(state.field@[190] == 2);
        }
        assert(has_part(state.field@, 3)) by {
            assert(state.field@[191] == 3);
        }
        state
    }
}

impl Pages {
    /// The top left corner on the panel of cell `field_index` of the snake's field.
    pub fn get_field_xy(field_index: usize) -> (xy: (u8, u8))
        requires
            field_index < 225,
        ensures
            xy == ((10 + 10 * (field_index % 15)) as u8, (25 + 10 * (field_index / 15)) as u8),
            xy.0 <= 150,
            xy.1 <= 165,
    {
        let x = 10 + 10 * (field_index % 15);
        let y = 25 + 10 * (field_index / 15);
        return (x as u8, y as u8);
    }

    /// Whether the snake part in cell `block` continues into its neighbour in direction `dir`:
    /// their numbers differ by one and the neighbour is no apple.
    pub fn is_connected(state: &GameState, block: usize, dir: ArrowDir) -> (r: bool)
        requires
            block < 225,
        ensures
            r == ({
                let a = state.field@[block as int] as int;
                let b = state.field@[neighbour(block as int, dir)] as int;
                (a - b == 1 || b - a == 1) && b != 1
            }),
    {
        let i = match dir {
            ArrowDir::Up => {
                if block < 15 {
                    210 + block
                } else {
                    block - 15
                }
            },
            ArrowDir::Right => {
                if block % 15 == 14 {
                    block - 14
                } else {
                    block + 1
                }
            },
            ArrowDir::Down => {
                if block >= 210 {
                    block - 210
                } else {
                    block + 15
                }
            },
            ArrowDir::Left => {
                if block % 15 == 0 {
                    block + 14
                } else {
                    block - 1
                }
            },
        };
        let a = state.field[block];
        let b = state.field[i];
        let diff = if a < b {
            b - a
        } else {
            a - b
        };
        return diff == 1 && b != 1;
    }

    /// The two directions the snake can turn to from heading `dir`.
    pub fn get_possible_dirs(dir: &ArrowDir) -> (r: (ArrowDir, ArrowDir))
        ensures
            r == possible_dirs(*dir),
    {
        return match dir {
            ArrowDir::Up => (ArrowDir::Left, ArrowDir::Right),
            ArrowDir::Right => (ArrowDir::Up, ArrowDir::Down),
            ArrowDir::Down => (ArrowDir::Right, ArrowDir::Left),
            ArrowDir::Left => (ArrowDir::Down, ArrowDir::Up),
        };
    }

    /// Where the snake goes: the new heading after `ev`, and one step in it from `curr_pos`,
    /// or whether it hits the wall.
    pub fn get_next_step(ev: Event, dir: &ArrowDir, curr_pos: (u8, u8)) -> (r: (u8, u8, ArrowDir, bool))
        ensures
            r.2 == turned(ev, *dir),
            (r.0, r.1, r.3) == stepped(turned(ev, *dir), curr_pos),
    {
        let (dir_a, dir_b) = Self::get_possible_dirs(dir);
        let new_dir = match ev {
            Event::BtnUp => dir_a,
            Event::BtnDown => dir_b,
            _ => *dir,
        };
        let (mut out_x, mut out_y) = curr_pos;
        let mut hit_wall = false;
        match new_dir {
            ArrowDir::Up => {
                if out_y == 0 {
                    hit_wall = true;
                } else {
                    out_y -= 1;
                }
            },
            ArrowDir::Right => {
                if out_x >= 14 {
                    hit_wall = true;
                } else {
                    out_x += 1;
                }
            },
            ArrowDir::Down => {
                if out_y >= 14 {
                    hit_wall = true;
                } else {
                    out_y += 1;
                }
            },
            ArrowDir::Left => {
                if out_x == 0 {
                    hit_wall = true;
                } else {
                    out_x -= 1;
                }
            },
        };
        return (out_x, out_y, new_dir, hit_wall);
    }
}

} // verus!

verus! {

/// In the menu: up and down move between its two items, the middle button picks one; picking
/// the second leaves the game.
pub open spec fn menu_updated(ev: Event, s: GameState, n: GameState, exit: bool) -> bool {
    let mi = if ev == Event::BtnUp || ev == Event::BtnDown {
        ((s.menu_item + 1) % 2) as u8
    } else {
        s.menu_item
    };
    &&& n == GameState { menu_item: mi, menu_active: !(ev == Event::BtnMid && mi == 0), ..s }
    &&& exit == (ev == Event::BtnMid && mi == 1)
}

/// One move of the snake. It turns on up and down and steps ahead; hitting the wall or its own
/// body loses the game. On the apple it grows by one, and a new apple goes to the first empty
/// cell of a walk from a cell made up from its old position; when it fills the field the game
/// is won. Then every part ages by one, the part past the snake's length goes, and the head
/// takes the new cell.
pub open spec fn play_updated(ev: Event, s: GameState, n: GameState) -> bool {
    let nd = turned(ev, s.curr_dir);
    let (nx, ny, hit) = stepped(nd, s.curr_pos);
    let target = ny * 15 + nx;
    let sq = s.field@[target];
    if hit || sq > 2 {
        n == GameState { game_lost: true, curr_dir: nd, ..s }
    } else {
        let len = if sq == 1 {
            s.snake_len + 1
        } else {
            s.snake_len as int
        };
        &&& n == GameState {
            curr_pos: (nx, ny),
            curr_dir: nd,
            snake_len: len as u8,
            game_won: s.game_won || (sq == 1 && len == 225),
            field: n.field,
            ..s
        }
        &&& if sq == 1 {
            let cleared = s.field@.update(target, 0);
            exists|a: int|
                apple_placed(cleared, apple_start(s.curr_pos, nd), apple_walk(nd), a) && n.field@
                    == aged_field(cleared.update(a, 1), len).update(target, 2)
        } else {
            n.field@ == aged_field(s.field@, len).update(target, 2)
        }
    }
}

/// The game after event `ev`, and whether it is left.
pub open spec fn game_updated(ev: Event, s: GameState, n: GameState, exit: bool) -> bool {
    if s.menu_active {
        menu_updated(ev, s, n, exit)
    } else if ev == Event::BtnMid {
        n == GameState { menu_active: true, ..s } && !exit
    } else if s.game_lost || s.game_won {
        n == s && !exit
    } else {
        play_updated(ev, s, n) && !exit
    }
}

fn dir_number_exec(dir: &ArrowDir) -> (r: u32)
    ensures
        r == dir_number(*dir),
{
    match dir {
        ArrowDir::Up => 0,
        ArrowDir::Right => 1,
        ArrowDir::Down => 2,
        ArrowDir::Left => 3,
    }
}

proof fn lemma_walk_next(start: int, step: int, k: int)
    requires
        step == 1 || step == -1,
    ensures
        walk_cell(start, step, k + 1) == (walk_cell(start, step, k) + step) % 225,
        0 <= walk_cell(start, step, k) < 225,
{
    let a = start + step * k;
    assert(start + step * (k + 1) == a + step) by (nonlinear_arith)
        requires a == start + step * k;
    vstd::arithmetic::div_mod::lemma_add_mod_noop(a, step, 225);
    vstd::arithmetic::div_mod::lemma_mod_twice(step, 225);
    assert(step % 225 == step || step % 225 == 224);
    vstd::arithmetic::div_mod::lemma_add_mod_noop(a % 225, step, 225);
    vstd::arithmetic::div_mod::lemma_mod_twice(a, 225);
}

/// Puts the apple into the first empty cell of the walk from `start` in steps of `step`;
/// returns that cell. Cell `target` is empty, so the walk ends.
fn place_apple(field: &mut [u8; 225], start: i16, step: i16, target: usize) -> (a: i16)
    requires
        0 <= start < 225,
        step == 1 || step == -1,
        target < 225,
        old(field)@[target as int] == 0,
    ensures
        apple_placed(old(field)@, start as int, step as int, a as int),
        final(field)@ == old(field)@.update(a as int, 1),
        0 <= a < 225,
{
    let mut next_index = start;
    let ghost cleared = field@;
    let ghost mut k: int = 0;
    proof {
        lemma_walk_next(start as int, step as int, 0);
        assert(walk_cell(start as int, step as int, 0) == start);
    }
    if field[next_index as usize] > 0 {
        loop
            invariant_except_break
                cleared[next_index as int] != 0,
                forall|j: int|
                    0 <= j <= k ==> cleared[#[trigger] walk_cell(start as int, step as int, j)] != 0,
            invariant
                0 <= next_index < 225,
                0 <= target < 225,
                step == 1 || step == -1,
                k >= 0,
                next_index == walk_cell(start as int, step as int, k),
                field@ == cleared,
                cleared[target as int] == 0,
            ensures
                0 <= next_index < 225,
                next_index == walk_cell(start as int, step as int, k),
                cleared[next_index as int] == 0,
                forall|j: int|
                    0 <= j < k ==> cleared[#[trigger] walk_cell(start as int, step as int, j)] != 0,
                field@ == cleared,
            decreases (if step == 1 {
                target - next_index
            } else {
                next_index - target
            }) % 225,
        {
            proof {
                lemma_walk_next(start as int, step as int, k);
            }
            next_index = (next_index + step) % (FIELD_LEN as i16);
            if next_index < 0 {
                next_index = (FIELD_LEN - 1) as i16;
            }
            proof {
                k = k + 1;
            }
            if field[next_index as usize] == 0 {
                break;
            }
        }
    }
    assert(forall|j: int| 0 <= j < k ==> cleared[#[trigger] walk_cell(start as int, step as int, j)] != 0);
    assert(apple_placed(cleared, start as int, step as int, next_index as int));
    field[next_index as usize] = 1;
    next_index
}

/// Every part of the snake ages by one; the part past length `len` goes.
fn age_field(field: &mut [u8; 225], len: u8)
    requires
        len <= 225,
        forall|j: int| 0 <= j < 225 ==> #[trigger] old(field)@[j] <= len + 1,
    ensures
        final(field)@ == aged_field(old(field)@, len as int),
{
    let ghost placed = field@;
    assert(placed.len() == 225);
    let mut i: usize = 0;
    while i < FIELD_LEN
        invariant
            0 <= i <= 225,
            len <= 225,
            forall|j: int| 0 <= j < i ==> field@[j] == aged(placed[j], len as int),
            forall|j: int| i <= j < 225 ==> field@[j] == placed[j],
            forall|j: int| 0 <= j < 225 ==> placed[j] <= len + 1,
            placed.len() == 225,
        decreases 225 - i,
    {
        let val = field[i];
        assert(val == placed[i as int]);
        assert(placed[i as int] <= len + 1);
        let val1 = if val > 1 {
            val + 1
        } else {
            val
        };
        field[i] = if val1 > len + 1 {
            0
        } else {
            val1
        };
        i += 1;
    }
    assert(field@ == aged_field(placed, len as int));
}

impl Pages {
    /// Handles event `ev` in the game (see `game_updated`); returns whether the game is left.
    /// The game stays well formed, and a whole snake stays whole.
    pub fn update_game(ev: Event, state: &mut GameState) -> (exit: bool)
        requires
            old(state).wf(),
        ensures
            final(state).wf(),
            game_updated(ev, *old(state), *final(state), exit),
            old(state).snake_whole() ==> final(state).snake_whole(),
    {
        let ghost s0 = *state;
        let exit = Self::game_step(ev, state);
        proof {
            if s0.snake_whole() {
                lemma_update_keeps_snake_whole(ev, s0, *state, exit);
            }
        }
        exit
    }

    /// One event of the snake game.
    fn game_step(ev: Event, state: &mut GameState) -> (exit: bool)
        requires
            old(state).wf(),
        ensures
            final(state).wf(),
            game_updated(ev, *old(state), *final(state), exit),
    {
        if state.menu_active {
            if ev == Event::BtnUp || ev == Event::BtnDown {
                state.menu_item = (state.menu_item + 1) % 2;
            }
            if ev == Event::BtnMid && state.menu_item == 0 {
                state.menu_active = false;
            }
            if ev == Event::BtnMid {
                return state.menu_item == 1;
            }
            return false;
        }
        if ev == Event::BtnMid {
            state.menu_active = true;
            return false;
        }
        if state.game_lost || state.game_won {
            return false;
        }
        let ghost s0 = *state;
        let (next_x, next_y, new_dir, hit_wall) = Self::get_next_step(ev, &state.curr_dir, state.curr_pos);
        state.game_lost = state.game_lost || hit_wall;
        state.curr_dir = new_dir;
        if state.game_lost {
            return false;
        }
        let target = (next_y * 15 + next_x) as usize;
        let square = state.field[target];
        if square > 2 {
            state.game_lost = true;
            return false;
        }
        let ghost mut apple: int = 0;
        if square == 1 {
            state.field[target] = 0;
            state.snake_len += 1;
            if state.snake_len == FIELD_LEN as u8 {
                state.game_won = true;
            }
            let dir_num = dir_number_exec(&state.curr_dir);
            let cx = state.curr_pos.0 as u32;
            let cy = state.curr_pos.1 as u32;
            assert(cx * cy <= 14 * 14) by (nonlinear_arith)
                requires cx <= 14, cy <= 14;
            assert(cx * cy * (dir_num + 7) <= 196 * 10) by (nonlinear_arith)
                requires cx * cy <= 196, dir_num <= 3;
            assert(cx * cy * (dir_num + 4) <= 196 * 10) by (nonlinear_arith)
                requires cx * cy <= 196, dir_num <= 3;
            let next_x2 = ((cx * cy * (dir_num + 4) + 3) % 15) as i16;
            let next_y2 = ((cx * cy * (dir_num + 7) + 1) % 15) as i16;
            let next_index: i16 = next_y2 * 15 + next_x2;
            assert(next_index == apple_start(s0.curr_pos, new_dir));
            let step: i16 = if dir_num % 2 == 1 {
                -1
            } else {
                1
            };
            assert(step == apple_walk(new_dir));
            let ghost cleared = state.field@;
            let a = place_apple(&mut state.field, next_index, step, target);
            proof {
                apple = a as int;
            }
            assert(cleared == s0.field@.update(target as int, 0));
        }
        let ghost placed = state.field@;
        let len = state.snake_len;
        assert(placed.len() == 225);
        assert forall|j: int| 0 <= j < 225 implies placed[j] <= len + 1 by {
            assert(s0.field@[j] <= s0.snake_len + 1);
        }
        age_field(&mut state.field, len);
        assert(state.field@ == aged_field(placed, len as int));
        state.field[target] = 2;
        state.curr_pos = (next_x, next_y);
        assert(state.field@ == aged_field(placed, len as int).update(target as int, 2));
        assert(len <= 225);
        assert(forall|j: int| 0 <= j < 225 ==> #[trigger] state.field@[j] <= len + 1);
        proof {
            if square == 1 {
                assert(placed == s0.field@.update(target as int, 0).update(apple, 1));
                assert(apple_placed(
                    s0.field@.update(target as int, 0),
                    apple_start(s0.curr_pos, new_dir),
                    apple_walk(new_dir),
                    apple,
                ));
            } else {
                assert(placed == s0.field@);
            }
        }
        return false;
    }
}

/// A move of the snake keeps it whole: the head takes the new cell as part 2, every other part
/// moves one number on, and the last part leaves the field unless the apple was eaten.
pub proof fn lemma_update_keeps_snake_whole(ev: Event, s: GameState, n: GameState, exit: bool)
    requires
        s.wf(),
        s.snake_whole(),
        game_updated(ev, s, n, exit),
    ensures
        n.snake_whole(),
{
    if s.menu_active || ev == Event::BtnMid || s.game_lost || s.game_won {
        return;
    }
    let nd = turned(ev, s.curr_dir);
    let (nx, ny, hit) = stepped(nd, s.curr_pos);
    let t = ny * 15 + nx;
    let h = s.curr_pos.1 * 15 + s.curr_pos.0;
    let sq = s.field@[t];
    if hit || sq > 2 {
        return;
    }
    assert(t != h);
    assert(sq != 2) by {
        if sq == 2 {
            assert(s.field@[h] == s.field@[t]);
        }
    }
    let len = if sq == 1 {
        s.snake_len + 1
    } else {
        s.snake_len as int
    };
    let cleared = s.field@.update(t, 0);
    let a = if sq == 1 {
        choose|a: int|
            apple_placed(cleared, apple_start(s.curr_pos, nd), apple_walk(nd), a) && n.field@
                == aged_field(cleared.update(a, 1), len).update(t, 2)
    } else {
        -1
    };
    let base = if sq == 1 {
        cleared.update(a, 1)
    } else {
        s.field@
    };
    if sq == 1 {
        let k0 = choose|k0: int|
            0 <= k0 && a == #[trigger] walk_cell(
                apple_start(s.curr_pos, nd),
                apple_walk(nd),
                k0,
            ) && cleared[a] == 0 && forall|k: int|
                0 <= k < k0 ==> cleared[#[trigger] walk_cell(
                    apple_start(s.curr_pos, nd),
                    apple_walk(nd),
                    k,
                )] != 0;
        lemma_walk_next(apple_start(s.curr_pos, nd), apple_walk(nd), k0);
    }
    assert(n.field@ == aged_field(base, len).update(t, 2));
    assert(n.curr_pos == (nx, ny));
    assert(n.snake_len == len);
    // the cells other than the head's hold what they held, aged
    assert forall|i: int| 0 <= i < 225 && i != t implies #[trigger] n.field@[i] == aged(
        base[i],
        len,
    ) && (base[i] >= 2 ==> base[i] == s.field@[i]) && (s.field@[i] >= 2 ==> base[i]
        == s.field@[i]) by {}
    assert forall|i: int| 0 <= i < 225 && #[trigger] n.field@[i] >= 2 implies n.field@[i] <= n.snake_len
        + 1 by {}
    assert forall|i: int, j: int|
        0 <= i < 225 && 0 <= j < 225 && #[trigger] n.field@[i] >= 2 && n.field@[i]
            == #[trigger] n.field@[j] implies i == j by {
        if i != t && j != t {
            assert(s.field@[i] >= 2 && s.field@[i] == s.field@[j]);
        }
    }
    assert forall|v: int| 2 <= v <= n.snake_len + 1 implies #[trigger] has_part(n.field@, v) by {
        if v == 2 {
            assert(n.field@[t] == 2);
        } else {
            assert(has_part(s.field@, v - 1));
            let i = choose|i: int| 0 <= i < 225 && #[trigger] s.field@[i] == v - 1;
            assert(i != t);
            assert(n.field@[i] == v);
        }
    }
}

} // verus!
