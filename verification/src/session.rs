//! The game state machine.
//!
//! A session owns the playfield and the active block, drives the gravity
//! clock from a caller-supplied monotonic millisecond timestamp, applies
//! input commands, commits landed blocks, clears full rows, accumulates
//! the score and sequences the Running / Paused / GameOver / Restart
//! states.  Restart is transient: one update resets score and interior
//! and returns to play.

use vstd::prelude::*;
use crate::block::{Block, erased, stamped, hits};
use crate::rotation::Rotation;
use crate::tile_map::{
    TileMap, borders_walled, full_count_upto, eliminate_full_rows, WALL_TILE,
};

verus! {

/// Grid width of a session's playfield.
pub const FIELD_W: usize = 12;

/// Grid height of a session's playfield.
pub const FIELD_H: usize = 30;

/// Column where a fresh block is anchored.
pub const START_X: i16 = 4;

/// Row where a fresh block is anchored.
pub const START_Y: i16 = 2;

/// A landing at a row above this line ends the round.
pub const GAME_OVER_LINE: i16 = 5;

/// Milliseconds between two update cycles; earlier calls do nothing.
pub const UPDATE_INTERVAL_MS: u64 = 10;

/// Milliseconds between two gravity steps.
pub const GRAVITY_INTERVAL_MS: u64 = 300;

#[derive(Debug, Clone, Copy, PartialEq, Eq, Structural)]
pub enum GameStates {
    GameOver,
    GameOn,
    Pause,
    Restart,
}

/// The discrete commands the surrounding application may deliver, at most
/// one per physical key transition.
#[derive(Debug, Clone, Copy, PartialEq, Eq, Structural)]
pub enum InputCommand {
    MoveLeft,
    MoveRight,
    SoftDrop,
    Rotate,
    TogglePause,
    ToggleMute,
    ConfirmRestart,
    DeclineRestart,
    Quit,
}

/// The cell contents of a freshly built playfield: wall ring, empty
/// interior.
pub open spec fn initial_cell(x: int, y: int) -> i16 {
    if x == 0 || x == FIELD_W - 1 || y == FIELD_H - 1 {
        WALL_TILE as i16
    } else {
        0
    }
}

/// The active block after one gravity/validation step against the erased
/// grid `v1`: shifted down one row when `mv` asks for it (never off the
/// lowest row), rolled back to the previous position on overlap, marked
/// landed when a straight-down step was blocked, its fall request
/// consumed.
pub open spec fn cycle_moved_block(b: Block, v1: Seq<Seq<i16>>, mv: bool) -> Block {
    let cy = if mv && b.pos_y < FIELD_H - 1 {
        b.pos_y + 1
    } else {
        b.pos_y as int
    };
    let blocked = hits(v1, b.block_type, b.rotation, b.pos_x as int, cy);
    Block {
        pos_x: if blocked { b.prev_x } else { b.pos_x },
        pos_y: if blocked { b.prev_y } else { cy as i16 },
        down: b.down || (blocked && cy > b.prev_y && b.pos_x == b.prev_x),
        moving_down: false,
        ..b
    }
}

/// Landing is monotonic: once a block's `down` flag is set, no gravity or
/// validation step of the update cycle ever clears it again for that
/// block; only spawning a fresh block starts with it unset.
pub proof fn lemma_landed_monotonic(b: Block, v1: Seq<Seq<i16>>, mv: bool)
    requires
        b.down,
    ensures
        cycle_moved_block(b, v1, mv).down,
{
}

pub struct GameState {
    pub tile_map: TileMap,
    pub block: Block,
    pub game_state: GameStates,
    pub points: u32,
    pub music_on: bool,
    pub last_update_ms: u64,
    pub last_move_down_ms: u64,
}

impl GameState {
    pub open spec fn wf(self) -> bool {
        &&& self.tile_map.wf()
        &&& self.tile_map.width == FIELD_W
        &&& self.tile_map.height == FIELD_H
        &&& borders_walled(self.tile_map.grid(), FIELD_W as int, FIELD_H as int)
        &&& self.block.wf()
    }

    /// A fresh session: walled 12x30 playfield, empty interior, one block
    /// of type 1 at the spawn anchor, zero score, music on, both clocks
    /// set to `now_ms`, state Running.
    pub fn new(now_ms: u64) -> (s: GameState)
        ensures
            s.wf(),
            forall|x: int, y: int|
                0 <= x < FIELD_W && 0 <= y < FIELD_H
                    ==> #[trigger] s.tile_map.grid()[x][y] == initial_cell(x, y),
            s.block == (Block {
                pos_x: START_X,
                pos_y: START_Y,
                prev_x: START_X,
                prev_y: START_Y,
                block_type: 1,
                rotation: Rotation::Cw0,
                previous_rotation: Rotation::Cw0,
                down: false,
                moving_down: false,
            }),
            s.game_state == GameStates::GameOn,
            s.points == 0,
            s.music_on,
            s.last_update_ms == now_ms,
            s.last_move_down_ms == now_ms,
    {
        let block = Block::new(START_X, START_Y, 1);
        let mut tile_map = TileMap::new(FIELD_W, FIELD_H);
        // Bottom wall.
        let mut x: usize = 0;
        while x <= FIELD_W - 2
            invariant
                tile_map.wf(),
                tile_map.width == FIELD_W,
                tile_map.height == FIELD_H,
                x <= FIELD_W - 1,
                forall|i: int, j: int|
                    0 <= i < FIELD_W && 0 <= j < FIELD_H
                        ==> tile_map.grid()[i][j] == (if i < x && j == FIELD_H - 1 {
                            WALL_TILE as i16
                        } else {
                            0
                        }),
            decreases FIELD_W - x,
        {
            tile_map.set(x as i16, FIELD_H as i16 - 1, WALL_TILE);
            x += 1;
        }
        // Left and right walls.
        let mut y: usize = 0;
        while y < FIELD_H
            invariant
                tile_map.wf(),
                tile_map.width == FIELD_W,
                tile_map.height == FIELD_H,
                y <= FIELD_H,
                forall|i: int, j: int|
                    0 <= i < FIELD_W && 0 <= j < FIELD_H
                        ==> tile_map.grid()[i][j] == (if (i == 0 || i == FIELD_W - 1) && j < y {
                            WALL_TILE as i16
                        } else if j == FIELD_H - 1 && i < FIELD_W - 1 {
                            WALL_TILE as i16
                        } else {
                            0
                        }),
            decreases FIELD_H - y,
        {
            tile_map.set(0, y as i16, WALL_TILE);
            tile_map.set(FIELD_W as i16 - 1, y as i16, WALL_TILE);
            y += 1;
        }
        GameState {
            tile_map,
            block,
            game_state: GameStates::GameOn,
            points: 0,
            music_on: true,
            last_update_ms: now_ms,
            last_move_down_ms: now_ms,
        }
    }

    /// One frame of game logic, fed the current monotonic time.  Calls
    /// closer than the update interval to the previous one do nothing.
    /// While running: ask for a gravity step when due, erase the block,
    /// apply a pending fall with rollback on overlap, stamp it back and
    /// adopt the new baseline; when it has landed, check the game-over
    /// line, spawn a fresh block of a drawn type, clear full rows and
    /// score them.  Restart zeroes score and interior and resumes play;
    /// Paused and GameOver frames change nothing but the clock.  Returns
    /// the number of rows cleared, for the caller's audio cue.
    #[verifier::rlimit(100)]
    pub fn update(&mut self, now_ms: u64) -> (cleared: u32)
        requires
            old(self).wf(),
            now_ms >= old(self).last_update_ms,
            now_ms >= old(self).last_move_down_ms,
        ensures
            final(self).wf(),
            now_ms - old(self).last_update_ms < UPDATE_INTERVAL_MS
                ==> *final(self) == *old(self) && cleared == 0,
            now_ms - old(self).last_update_ms >= UPDATE_INTERVAL_MS
                ==> final(self).last_update_ms == now_ms,
            now_ms - old(self).last_update_ms >= UPDATE_INTERVAL_MS
                && (old(self).game_state == GameStates::Pause
                    || old(self).game_state == GameStates::GameOver)
                ==> *final(self) == (GameState { last_update_ms: now_ms, ..*old(self) })
                    && cleared == 0,
            now_ms - old(self).last_update_ms >= UPDATE_INTERVAL_MS
                && old(self).game_state == GameStates::Restart
                ==> cleared == 0
                    && *final(self) == (GameState {
                        last_update_ms: now_ms,
                        points: 0,
                        game_state: GameStates::GameOn,
                        tile_map: final(self).tile_map,
                        ..*old(self)
                    })
                    && final(self).tile_map.width == FIELD_W
                    && final(self).tile_map.height == FIELD_H
                    && (forall|x: int, y: int|
                        0 <= x < FIELD_W && 0 <= y < FIELD_H
                            ==> final(self).tile_map.grid()[x][y]
                                == (if 1 <= x < FIELD_W - 1 && y < FIELD_H - 1 {
                                    0
                                } else {
                                    old(self).tile_map.grid()[x][y]
                                })),
            now_ms - old(self).last_update_ms >= UPDATE_INTERVAL_MS
                && old(self).game_state == GameStates::GameOn
                ==> ({
                    let grav = now_ms - old(self).last_move_down_ms >= GRAVITY_INTERVAL_MS;
                    let mv = old(self).block.moving_down || (grav && !old(self).block.down);
                    let v1 = erased(old(self).tile_map.grid(), old(self).block);
                    let b1 = cycle_moved_block(old(self).block, v1, mv);
                    let v2 = stamped(v1, b1);
                    let b2 = Block { prev_x: b1.pos_x, prev_y: b1.pos_y, ..b1 };
                    &&& final(self).last_move_down_ms
                        == (if grav { now_ms } else { old(self).last_move_down_ms })
                    &&& final(self).music_on == old(self).music_on
                    &&& !b2.down ==> {
                        &&& cleared == 0
                        &&& final(self).tile_map.grid() == v2
                        &&& final(self).block == b2
                        &&& final(self).points == old(self).points
                        &&& final(self).game_state == GameStates::GameOn
                    }
                    &&& b2.down ==> {
                        &&& cleared == full_count_upto(v2, FIELD_H - 1)
                        &&& final(self).tile_map.grid()
                            == eliminate_full_rows(v2, FIELD_W as int, FIELD_H as int)
                        &&& final(self).points == (if old(self).points + cleared <= u32::MAX {
                            (old(self).points + cleared) as u32
                        } else {
                            u32::MAX
                        })
                        &&& final(self).game_state == (if b2.pos_y < GAME_OVER_LINE {
                            GameStates::GameOver
                        } else {
                            GameStates::GameOn
                        })
                        &&& 1 <= final(self).block.block_type < 7
                        &&& final(self).block == (Block {
                            pos_x: START_X,
                            pos_y: START_Y,
                            prev_x: START_X,
                            prev_y: START_Y,
                            block_type: final(self).block.block_type,
                            rotation: Rotation::Cw0,
                            previous_rotation: Rotation::Cw0,
                            down: false,
                            moving_down: false,
                        })
                    }
                }),
    {
        if now_ms - self.last_update_ms < UPDATE_INTERVAL_MS {
            return 0;
        }
        let mut cleared: u32 = 0;
        match self.game_state {
            GameStates::GameOver | GameStates::Pause => {},
            GameStates::Restart => {
                self.points = 0;
                self.tile_map.reset_interior();
                self.game_state = GameStates::GameOn;
            },
            GameStates::GameOn => {
                let grav = now_ms - self.last_move_down_ms >= GRAVITY_INTERVAL_MS;
                if grav {
                    if !self.block.down {
                        self.block.moving_down = true;
                    }
                    self.last_move_down_ms = now_ms;
                }
                self.block.erase(&mut self.tile_map);
                let dy: i16 = if self.block.moving_down {
                    1
                } else {
                    0
                };
                self.block.try_move(0, dy, &self.tile_map);
                self.block.moving_down = false;
                self.block.stamp(&mut self.tile_map);
                self.block.commit_position();
                if self.block.is_down() {
                    if self.block.pos_y < GAME_OVER_LINE {
                        self.game_state = GameStates::GameOver;
                    }
                    let block_type = crate::ext::random_block_type();
                    self.block = Block::new(START_X, START_Y, block_type);
                    cleared = self.tile_map.clear_full_rows();
                    if cleared > 0 {
                        if cleared <= u32::MAX - self.points {
                            self.points = self.points + cleared;
                        } else {
                            self.points = u32::MAX;
                        }
                    }
                }
            },
        }
        self.last_update_ms = now_ms;
        cleared
    }

    /// Applies one input command.  Returns false when the command asks to
    /// leave the game (Quit anywhere, or declining a restart after game
    /// over), true otherwise.  Movement, soft drop and rotation act only
    /// while the block has not landed; pause and mute toggles and the
    /// restart decision act regardless.
    pub fn handle_input(&mut self, cmd: InputCommand) -> (continuing: bool)
        requires
            old(self).wf(),
        ensures
            final(self).wf(),
            continuing == !(cmd == InputCommand::Quit
                || (cmd == InputCommand::DeclineRestart
                    && old(self).game_state == GameStates::GameOver)),
            (cmd == InputCommand::Quit || cmd == InputCommand::DeclineRestart)
                ==> *final(self) == *old(self),
            cmd == InputCommand::TogglePause
                ==> *final(self) == (GameState {
                    game_state: if old(self).game_state == GameStates::GameOn {
                        GameStates::Pause
                    } else {
                        GameStates::GameOn
                    },
                    ..*old(self)
                }),
            cmd == InputCommand::ToggleMute
                ==> *final(self) == (GameState { music_on: !old(self).music_on, ..*old(self) }),
            cmd == InputCommand::ConfirmRestart
                ==> *final(self) == (GameState {
                    game_state: if old(self).game_state == GameStates::GameOver {
                        GameStates::Restart
                    } else {
                        old(self).game_state
                    },
                    ..*old(self)
                }),
            (cmd == InputCommand::MoveLeft || cmd == InputCommand::MoveRight
                || cmd == InputCommand::SoftDrop || cmd == InputCommand::Rotate)
                && old(self).block.down ==> *final(self) == *old(self),
            cmd == InputCommand::SoftDrop && !old(self).block.down
                ==> *final(self) == (GameState {
                    block: Block { moving_down: true, ..old(self).block },
                    ..*old(self)
                }),
            (cmd == InputCommand::MoveLeft || cmd == InputCommand::MoveRight)
                && !old(self).block.down
                ==> ({
                    let dx: int = if cmd == InputCommand::MoveLeft { -1 } else { 1 };
                    let v1 = erased(old(self).tile_map.grid(), old(self).block);
                    let cx = old(self).block.pos_x + dx;
                    let blocked = hits(v1, old(self).block.block_type,
                        old(self).block.rotation, cx, old(self).block.pos_y as int);
                    &&& final(self).tile_map.grid() == v1
                    &&& final(self).block == (Block {
                        pos_x: if blocked { old(self).block.prev_x } else { cx as i16 },
                        pos_y: if blocked { old(self).block.prev_y } else { old(self).block.pos_y },
                        down: old(self).block.down
                            || (blocked && old(self).block.pos_y > old(self).block.prev_y
                                && cx == old(self).block.prev_x),
                        ..old(self).block
                    })
                    &&& *final(self) == (GameState {
                        tile_map: final(self).tile_map,
                        block: final(self).block,
                        ..*old(self)
                    })
                }),
            cmd == InputCommand::Rotate && !old(self).block.down
                ==> ({
                    let v1 = erased(old(self).tile_map.grid(), old(self).block);
                    let next = old(self).block.rotation.next_spec();
                    let blocked = hits(v1, old(self).block.block_type, next,
                        old(self).block.pos_x as int, old(self).block.pos_y as int);
                    &&& final(self).tile_map.grid() == v1
                    &&& final(self).block == (Block {
                        rotation: if blocked { old(self).block.rotation } else { next },
                        previous_rotation: old(self).block.rotation,
                        ..old(self).block
                    })
                    &&& *final(self) == (GameState {
                        tile_map: final(self).tile_map,
                        block: final(self).block,
                        ..*old(self)
                    })
                }),
    {
        let mut continuing = true;
        match cmd {
            InputCommand::Quit => {
                continuing = false;
            },
            InputCommand::MoveLeft => {
                if !self.block.down {
                    self.block.erase(&mut self.tile_map);
                    self.block.try_move(-1, 0, &self.tile_map);
                }
            },
            InputCommand::MoveRight => {
                if !self.block.down {
                    self.block.erase(&mut self.tile_map);
                    self.block.try_move(1, 0, &self.tile_map);
                }
            },
            InputCommand::SoftDrop => {
                if !self.block.down {
                    self.block.moving_down = true;
                }
            },
            InputCommand::Rotate => {
                if !self.block.down {
                    self.block.erase(&mut self.tile_map);
                    self.block.try_rotate(&self.tile_map);
                }
            },
            InputCommand::TogglePause => {
                self.game_state = match self.game_state {
                    GameStates::GameOn => GameStates::Pause,
                    _ => GameStates::GameOn,
                };
            },
            InputCommand::ToggleMute => {
                self.music_on = !self.music_on;
            },
            InputCommand::ConfirmRestart => {
                if matches!(self.game_state, GameStates::GameOver) {
                    self.game_state = GameStates::Restart;
                }
            },
            InputCommand::DeclineRestart => {
                if matches!(self.game_state, GameStates::GameOver) {
                    continuing = false;
                }
            },
        }
        continuing
    }
}

} // verus!
