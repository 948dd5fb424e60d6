//! The catalog-row shape of the main backend and its conversion into the
//! library's game value.
//!
//! The catalog itself is an external collaborator: reading its rows is the
//! transport layer's work. What the rows mean — how a row becomes a game,
//! which tag, icon and category it carries, and when a directory counts as
//! absent — is decided and proved here.

use vstd::prelude::*;
use vstd::string::*;

use crate::game;

verus! {

/// One row of the catalog backend: the per-row fields the catalog yields
/// for an installed game.
#[derive(Debug)]
pub struct Game {
    /// Display title.
    pub name: String,
    /// The catalog's short name for the game, used to derive the icon.
    pub slug: String,
    /// The runner that starts the game, used to derive the category label.
    pub runner: String,
    /// Install directory as stored; an empty string means none is known.
    pub directory: Option<String>,
    /// The catalog's numeric identifier for the game.
    pub id: u32,
}

impl Game {
    /// The library's game value for this catalog row: tagged "lutris", with
    /// icon `"lutris_{slug}"`, category `"Lutris ({runner})"`, and an empty
    /// directory string treated as no directory at all.
    pub fn into_library_game(self) -> (g: game::Game)
        ensures
            g.src@ == "lutris"@,
            g.id == self.id,
            g.name@ == self.name@,
            g.icon@ == "lutris_"@ + self.slug@,
            g.category@ == "Lutris ("@ + self.runner@ + ")"@,
            g.directory == (match self.directory {
                Some(d) => if d@.len() == 0 {
                    None
                } else {
                    Some(d)
                },
                None => None::<String>,
            }),
    {
        let icon = String::from_str("lutris_").concat(self.slug.as_str());
        let category = String::from_str("Lutris (").concat(self.runner.as_str()).concat(")");
        let directory = match self.directory {
            Some(d) => if d.as_str().is_empty() {
                None
            } else {
                Some(d)
            },
            None => None,
        };
        game::Game {
            name: self.name,
            icon,
            category,
            directory,
            id: self.id,
            src: String::from_str("lutris"),
        }
    }
}

} // verus!
