//! A game: one board, the players at it, and the succession of rounds.

use vstd::prelude::*;

use crate::board::{Board, MAX_ATTEMPTS};
use crate::entropy::random_usize;
use crate::error::GameError;
use crate::maze::{default_walls, is_target_tile, lemma_target_candidate};
use crate::model::{placement_valid, BoardView, NUM_ROBOTS};

verus! {

/// Someone who takes part in a game, known by the address they connected from.
#[derive(Debug)]
pub struct Player {
    ip: String,
}

impl Clone for Player {
    fn clone(&self) -> (player: Player)
        ensures
            player@ == self@,
    {
        Player { ip: self.ip.clone() }
    }
}

impl View for Player {
    type V = Seq<char>;

    /// A player is the identity string it was made with.
    closed spec fn view(&self) -> Seq<char> {
        self.ip@
    }
}

impl Player {
    /// The player identified by `ip`.
    pub fn new(ip: String) -> (player: Player)
        ensures
            player@ == ip@,
    {
        Player { ip }
    }

    /// The identity the player was made with.
    pub fn ip(&self) -> (ip: &String)
        ensures
            ip@ == self@,
    {
        &self.ip
    }
}

/// What a game is, as plain mathematics.
#[verifier::ext_equal]
pub struct GameView {
    pub board: BoardView,
    /// The identities of the players, in the order in which they joined.
    pub players: Seq<Seq<char>>,
}

/// A board and the players gathered round it.
pub struct Game {
    board: Board,
    players: Vec<Player>,
}

impl GameView {
    /// A game that has not started: the fixed maze, no robots, no players.
    pub open spec fn fresh() -> GameView {
        GameView {
            board: BoardView { walls: default_walls(), ..BoardView::empty() },
            players: Seq::empty(),
        }
    }

    /// A round is being played: the robots are on the board and the target is a
    /// tile a target may be placed on. Before the game has started there are no
    /// robots yet.
    pub open spec fn round_in_progress(self) -> bool {
        self.board.robots.len() == NUM_ROBOTS && is_target_tile(self.board.target)
    }
}

impl View for Game {
    type V = GameView;

    closed spec fn view(&self) -> GameView {
        GameView { board: self.board@, players: self.players@.map_values(|p: Player| p@) }
    }
}

impl Game {
    /// The invariant of a game: that of its board.
    pub open spec fn wf(&self) -> bool {
        self@.board.wf()
    }

    /// A game that has not started: the fixed maze, no robots, no players.
    pub fn new() -> (game: Game)
        ensures
            game@ == GameView::fresh(),
            !game@.round_in_progress(),
            game.wf(),
    {
        let mut board = Board::new();
        board.init_default();

        let game = Game { board, players: Vec::new() };
        proof {
            assert(game@.board.walls =~= default_walls());
            assert(game@ =~= GameView::fresh());
        }
        game
    }

    /// The board of the game.
    pub fn board(&self) -> (board: &Board)
        ensures
            board@ == self@.board,
    {
        &self.board
    }

    /// The board of the game, for the caller to move robots on or to reset.
    /// Whatever the caller does to it, the players stay as they were.
    pub fn board_mut(&mut self) -> (board: &mut Board)
        ensures
            board@ == old(self)@.board,
            final(self)@ == (GameView { board: final(board)@, ..old(self)@ }),
    {
        &mut self.board
    }

    /// The players of the game, in the order in which they joined.
    pub fn players(&self) -> (players: &Vec<Player>)
        ensures
            players@.len() == self@.players.len(),
            forall|i: int|
                0 <= i < players@.len() ==> (#[trigger] players@[i])@ == self@.players[i],
    {
        &self.players
    }

    /// Lets `player` join. Neither a player that has joined before nor any number
    /// of players is refused.
    pub fn add_player(&mut self, player: Player)
        ensures
            final(self)@.players == old(self)@.players.push(player@),
            final(self)@.board == old(self)@.board,
    {
        self.players.push(player);
        proof {
            assert(self@.players =~= old(self)@.players.push(player@));
        }
    }

    /// Starts the game: removes the robots, places them afresh at random, and
    /// starts the first round.
    ///
    /// Both random steps try a bounded number of draws. If the placement gives
    /// up, the board is left without robots; if the choice of the target gives
    /// up, the robots stay placed and the target stays as it was.
    pub fn start_game(&mut self) -> (started: Result<(), GameError>)
        ensures
            old(self).wf() ==> final(self).wf(),
            final(self)@.players == old(self)@.players,
            match started {
                Ok(()) => {
                    &&& final(self)@.round_in_progress()
                    &&& final(self)@.board == old(self)@.board.after_placement(
                        final(self)@.board.robots,
                    ).after_target(final(self)@.board.target)
                    &&& final(self)@.board.robots.len() == NUM_ROBOTS
                    &&& placement_valid(final(self)@.board.robots)
                    &&& is_target_tile(final(self)@.board.target)
                    &&& !final(self)@.board.robots.contains(final(self)@.board.target)
                },
                Err(e) => {
                    &&& e == GameError::InternalInvariant
                    &&& {
                        ||| final(self)@.board == old(self)@.board.after_clear()
                        ||| {
                            &&& final(self)@.board == old(self)@.board.after_placement(
                                final(self)@.board.robots,
                            )
                            &&& final(self)@.board.robots.len() == NUM_ROBOTS
                            &&& placement_valid(final(self)@.board.robots)
                        }
                    }
                },
            },
    {
        self.board.clear();
        match self.board.init_robots() {
            Ok(()) => {},
            Err(e) => {
                return Err(e);
            },
        }
        let ghost placed = self@.board;
        let started = self.start_next_round();
        proof {
            assert(placed =~= old(self)@.board.after_placement(placed.robots));
            if started is Ok {
                assert(self@.board =~= old(self)@.board.after_placement(
                    self@.board.robots,
                ).after_target(self@.board.target));
            }
        }
        started
    }

    /// Starts the next round: draws a tile from the table of L-shaped obstacles
    /// until one comes up on which no robot stands, and makes it the target.
    ///
    /// After [`MAX_ATTEMPTS`] draws the choice is given up and the game stays as
    /// it was.
    pub fn start_next_round(&mut self) -> (started: Result<(), GameError>)
        ensures
            old(self).wf() ==> final(self).wf(),
            old(self)@.round_in_progress() ==> final(self)@.round_in_progress(),
            match started {
                Ok(()) => {
                    &&& final(self)@ == (GameView {
                        board: old(self)@.board.after_target(final(self)@.board.target),
                        ..old(self)@
                    })
                    &&& is_target_tile(final(self)@.board.target)
                    &&& !final(self)@.board.robots.contains(final(self)@.board.target)
                },
                Err(e) => e == GameError::InternalInvariant && final(self)@ == old(self)@,
            },
    {
        let mut attempts: usize = 0;
        while attempts < MAX_ATTEMPTS
            invariant
                attempts <= MAX_ATTEMPTS,
                self@ == old(self)@,
            decreases MAX_ATTEMPTS - attempts,
        {
            let pos = random_usize();
            proof {
                lemma_target_candidate(pos);
            }
            if self.board.select_target(pos) {
                proof {
                    assert(self@ =~= GameView {
                        board: old(self)@.board.after_target(self@.board.target),
                        ..old(self)@
                    });
                }
                return Ok(());
            }
            attempts += 1;
        }
        Err(GameError::InternalInvariant)
    }
}

} // verus!
