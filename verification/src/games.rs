//! The registry of running games, each filed under an identifier of its own.

use vstd::prelude::*;

use crate::entropy::random_id;
use crate::game::{Game, GameView};

verus! {

/// Number of characters of the identifier a new game is filed under.
pub const GAME_ID_LENGTH: usize = 21;

/// The games that are running, each under its identifier.
pub struct Games {
    ids: Vec<String>,
    games: Vec<Game>,
}

/// What a registry is, as plain mathematics: its entries in the order in which
/// their identifiers were first filed.
#[verifier::ext_equal]
pub struct GamesView {
    pub ids: Seq<Seq<char>>,
    pub games: Seq<GameView>,
}

impl GamesView {
    /// The registry without games.
    pub open spec fn empty() -> GamesView {
        GamesView { ids: Seq::empty(), games: Seq::empty() }
    }

    /// One game for each identifier, and no identifier twice.
    pub open spec fn wf(self) -> bool {
        &&& self.ids.len() == self.games.len()
        &&& forall|i: int, j: int| 0 <= i < j < self.ids.len() ==> self.ids[i] != self.ids[j]
    }

    /// A game is filed under `id`.
    pub open spec fn contains(self, id: Seq<char>) -> bool {
        self.ids.contains(id)
    }

    /// The place of the game filed under `id`, where there is one.
    pub open spec fn index_of(self, id: Seq<char>) -> int {
        choose|i: int| 0 <= i < self.ids.len() && self.ids[i] == id
    }

    /// The game filed under `id`, where there is one.
    pub open spec fn game(self, id: Seq<char>) -> GameView {
        self.games[self.index_of(id)]
    }

    /// The registry after `game` has been filed under `id`, in place of the game
    /// that was filed under it before if there was one.
    pub open spec fn with(self, id: Seq<char>, game: GameView) -> GamesView {
        if self.contains(id) {
            GamesView { ids: self.ids, games: self.games.update(self.index_of(id), game) }
        } else {
            GamesView { ids: self.ids.push(id), games: self.games.push(game) }
        }
    }

    /// The registry after the game filed under `id`, if any, has been taken out.
    pub open spec fn without(self, id: Seq<char>) -> GamesView {
        if self.contains(id) {
            GamesView {
                ids: self.ids.remove(self.index_of(id)),
                games: self.games.remove(self.index_of(id)),
            }
        } else {
            self
        }
    }
}

impl View for Games {
    type V = GamesView;

    closed spec fn view(&self) -> GamesView {
        GamesView {
            ids: self.ids@.map_values(|id: String| id@),
            games: self.games@.map_values(|game: Game| game@),
        }
    }
}

impl Games {
    /// The invariant of a registry; see [`GamesView::wf`].
    pub open spec fn wf(&self) -> bool {
        self@.wf()
    }

    /// A registry without games.
    pub fn new() -> (games: Games)
        ensures
            games@ == GamesView::empty(),
            games.wf(),
    {
        let games = Games { ids: Vec::new(), games: Vec::new() };
        proof {
            assert(games@ =~= GamesView::empty());
        }
        games
    }

    /// The place of the game filed under `game_id`, if there is one.
    fn find(&self, game_id: &str) -> (found: Option<usize>)
        requires
            self.wf(),
        ensures
            match found {
                Some(i) => self@.contains(game_id@) && i == self@.index_of(game_id@) && i
                    < self.games@.len() && i < self.ids@.len(),
                None => !self@.contains(game_id@),
            },
    {
        let key = game_id.to_owned();
        let mut i: usize = 0;
        while i < self.ids.len()
            invariant
                i <= self.ids@.len(),
                self.wf(),
                key@ == game_id@,
                forall|j: int| 0 <= j < i ==> self@.ids[j] != game_id@,
            decreases self.ids@.len() - i,
        {
            if self.ids[i] == key {
                proof {
                    assert(self@.ids[i as int] == game_id@);
                    let k = self@.index_of(game_id@);
                    assert(0 <= k < self@.ids.len() && self@.ids[k] == game_id@);
                }
                return Some(i);
            }
            i += 1;
        }
        None
    }

    /// Files `game` under `game_id`. A game that was filed under the same
    /// identifier before is replaced.
    pub fn insert(&mut self, game_id: String, game: Game)
        requires
            old(self).wf(),
        ensures
            final(self).wf(),
            final(self)@ == old(self)@.with(game_id@, game@),
            final(self)@.contains(game_id@),
            final(self)@.game(game_id@) == game@,
    {
        let found = self.find(game_id.as_str());
        match found {
            Some(i) => {
                self.games.set(i, game);
                proof {
                    assert(self@ =~= old(self)@.with(game_id@, game@));
                    assert(self@.ids[i as int] == game_id@);
                    let k = self@.index_of(game_id@);
                    assert(0 <= k < self@.ids.len() && self@.ids[k] == game_id@);
                }
            },
            None => {
                self.ids.push(game_id);
                self.games.push(game);
                proof {
                    assert(self@ =~= old(self)@.with(game_id@, game@));
                    let last = self@.ids.len() - 1;
                    assert(self@.ids[last] == game_id@);
                    let k = self@.index_of(game_id@);
                    assert(0 <= k < self@.ids.len() && self@.ids[k] == game_id@);
                }
            },
        }
    }

    /// Creates a game and files it under a fresh random identifier, which is
    /// returned.
    pub fn new_game(&mut self) -> (game_id: String)
        requires
            old(self).wf(),
        ensures
            final(self).wf(),
            game_id@.len() == GAME_ID_LENGTH,
            final(self)@ == old(self)@.with(game_id@, GameView::fresh()),
            final(self)@.contains(game_id@),
            final(self)@.game(game_id@) == GameView::fresh(),
    {
        // generate random game id
        let game_id = random_id(GAME_ID_LENGTH);
        let game = Game::new();
        self.insert(game_id.clone(), game);
        game_id
    }

    /// The game filed under `game_id`, if there is one.
    pub fn get_game(&self, game_id: &str) -> (game: Option<&Game>)
        requires
            self.wf(),
        ensures
            match game {
                Some(game) => self@.contains(game_id@) && game@ == self@.game(game_id@),
                None => !self@.contains(game_id@),
            },
    {
        match self.find(game_id) {
            Some(i) => Some(&self.games[i]),
            None => None,
        }
    }

    /// The game filed under `game_id`, if there is one, for the caller to change.
    /// Whatever the caller does to it, the rest of the registry stays as it was.
    pub fn get_game_mut(&mut self, game_id: &str) -> (game: Option<&mut Game>)
        requires
            old(self).wf(),
        ensures
            final(self).wf(),
            match game {
                Some(game) => {
                    &&& old(self)@.contains(game_id@)
                    &&& game@ == old(self)@.game(game_id@)
                    &&& final(self)@ == old(self)@.with(game_id@, final(game)@)
                },
                None => !old(self)@.contains(game_id@) && final(self)@ == old(self)@,
            },
    {
        match self.find(game_id) {
            Some(i) => {
                let game = &mut self.games[i];
                Some(game)
            },
            None => None,
        }
    }

    /// Takes the game filed under `game_id` out of the registry and returns it, if
    /// there is one.
    pub fn remove_game(&mut self, game_id: &str) -> (game: Option<Game>)
        requires
            old(self).wf(),
        ensures
            final(self).wf(),
            final(self)@ == old(self)@.without(game_id@),
            !final(self)@.contains(game_id@),
            match game {
                Some(game) => old(self)@.contains(game_id@) && game@ == old(self)@.game(game_id@),
                None => !old(self)@.contains(game_id@),
            },
    {
        match self.find(game_id) {
            Some(i) => {
                self.ids.remove(i);
                let game = self.games.remove(i);
                proof {
                    assert(self@ =~= old(self)@.without(game_id@));
                    if self@.contains(game_id@) {
                        let k = choose|k: int| 0 <= k < self@.ids.len() && self@.ids[k] == game_id@;
                        if k < i {
                            assert(old(self)@.ids[k] == game_id@);
                        } else {
                            assert(old(self)@.ids[k + 1] == game_id@);
                        }
                    }
                }
                Some(game)
            },
            None => None,
        }
    }

    /// All games, in the order in which their identifiers were first filed.
    pub fn list_games(&self) -> (games: Vec<&Game>)
        ensures
            games@.len() == self@.games.len(),
            forall|i: int| 0 <= i < games@.len() ==> (#[trigger] games@[i])@ == self@.games[i],
    {
        let mut games: Vec<&Game> = Vec::new();
        let mut i: usize = 0;
        while i < self.games.len()
            invariant
                i <= self.games@.len(),
                games@.len() == i,
                forall|j: int| 0 <= j < i ==> (#[trigger] games@[j])@ == self@.games[j],
            decreases self.games@.len() - i,
        {
            games.push(&self.games[i]);
            i += 1;
        }
        games
    }
}

} // verus!
