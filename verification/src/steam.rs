//! The placeholder backend for the second catalog: it is registered under
//! its own tag, reports no games, and accepts every action.

use vstd::prelude::*;
use vstd::string::*;

use crate::game::Game;
use crate::library::{GameSource, SourceError};

verus! {

/// A backend with an empty catalog.
pub struct Steam {}

impl Steam {
    /// Builds the backend; it needs no resources, so this always succeeds.
    pub fn new() -> (r: Result<Steam, SourceError>)
        ensures
            r is Ok,
    {
        Ok(Steam {  })
    }
}

impl GameSource for Steam {
    open spec fn tag(&self) -> Seq<char> {
        "steam"@
    }

    fn tag_name(&self) -> (t: String) {
        String::from_str("steam")
    }

    /// This backend answers every query with success and no results.
    open spec fn may_answer(&self, query: Seq<char>, r: Result<Vec<Game>, SourceError>) -> bool {
        r matches Ok(games) && games@.len() == 0
    }

    /// An empty catalog: every query succeeds with no results.
    fn query_game(&self, query: &String) -> (r: Result<Vec<Game>, SourceError>)
        ensures
            r matches Ok(games) && games@.len() == 0,
    {
        Ok(Vec::new())
    }

    fn run_game(&self, game: &Game) -> (r: Result<(), SourceError>)
        ensures
            r is Ok,
    {
        Ok(())
    }

    fn open_dir(&self, game: &Game) -> (r: Result<(), SourceError>)
        ensures
            r is Ok,
    {
        Ok(())
    }
}

} // verus!
