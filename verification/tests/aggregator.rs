use krunner_lutris::adapter::{handle_match, handle_run, handle_teardown};
use krunner_lutris::game::Game;
use krunner_lutris::library::{GameSource, LibraryError, LocalLibrary, SourceError};

/// A backend scripted for one test: it serves a fixed list of games, and
/// each of its facilities can be made to fail on demand.
struct FakeSource {
    tag: String,
    games: Vec<Game>,
    fail_query: bool,
    fail_run: bool,
    fail_open: bool,
}

impl FakeSource {
    fn new(tag: &str, games: Vec<Game>) -> Self {
        FakeSource {
            tag: tag.to_string(),
            games,
            fail_query: false,
            fail_run: false,
            fail_open: false,
        }
    }
}

fn game(src: &str, id: u32, name: &str, directory: Option<&str>) -> Game {
    Game {
        name: name.to_string(),
        icon: "icon".to_string(),
        category: "cat".to_string(),
        directory: directory.map(|d| d.to_string()),
        id,
        src: src.to_string(),
    }
}

impl GameSource for FakeSource {
    fn tag_name(&self) -> String {
        self.tag.clone()
    }

    fn query_game(&self, _query: &String) -> Result<Vec<Game>, SourceError> {
        if self.fail_query {
            Err(SourceError { message: "catalog unreachable".to_string() })
        } else {
            let mut out = Vec::new();
            for g in &self.games {
                out.push(game(&g.src, g.id, &g.name, g.directory.as_deref()));
            }
            Ok(out)
        }
    }

    fn run_game(&self, _game: &Game) -> Result<(), SourceError> {
        if self.fail_run {
            Err(SourceError { message: "launcher missing".to_string() })
        } else {
            Ok(())
        }
    }

    fn open_dir(&self, _game: &Game) -> Result<(), SourceError> {
        if self.fail_open {
            Err(SourceError { message: "no file manager".to_string() })
        } else {
            Ok(())
        }
    }
}

#[test]
fn one_game_is_marshalled_exactly() {
    let src = FakeSource::new(
        "lutris",
        vec![game("lutris", 10, "name", Some("a"))],
    );
    let mut l = LocalLibrary::new(vec![src]);
    let tuples = handle_match(&mut l, &"test".to_string()).unwrap();
    assert_eq!(tuples.len(), 1);
    let m = &tuples[0];
    assert_eq!(m.id, "lutris_10");
    assert_eq!(m.title, "name");
    assert_eq!(m.icon, "icon");
    assert_eq!(m.match_type, 30);
    assert_eq!(m.relevance_percent as f64, 100.0);
    let acts: Vec<&str> = m.actions.iter().map(|a| a.as_str()).collect();
    assert_eq!(acts, vec!["open-dir"]);
    assert_eq!(m.category, "cat");
}

#[test]
fn two_empty_sources_yield_an_empty_list() {
    let a = FakeSource::new("lutris", vec![]);
    let b = FakeSource::new("steam", vec![]);
    let mut l = LocalLibrary::new(vec![a, b]);
    let tuples = handle_match(&mut l, &"anything".to_string()).unwrap();
    assert!(tuples.is_empty());
}

#[test]
fn open_dir_without_directory_invokes_no_reveal() {
    let src = FakeSource {
        fail_open: true,
        ..FakeSource::new("lutris", vec![game("lutris", 10, "name", None)])
    };
    let mut l = LocalLibrary::new(vec![src]);
    handle_match(&mut l, &"test".to_string()).unwrap();
    let r = handle_run(&l, "lutris_10".to_string(), "open-dir".to_string());
    assert!(r.is_ok());
}

#[test]
fn open_dir_with_directory_reaches_the_source() {
    let src = FakeSource::new("lutris", vec![game("lutris", 10, "name", Some("/g"))]);
    let mut l = LocalLibrary::new(vec![src]);
    handle_match(&mut l, &"test".to_string()).unwrap();
    let r = handle_run(&l, "lutris_10".to_string(), "open-dir".to_string());
    assert!(r.is_ok());
}

#[test]
fn returned_ids_resolve_and_others_do_not() {
    let src = FakeSource::new(
        "lutris",
        vec![game("lutris", 10, "one", None), game("lutris", 11, "two", None)],
    );
    let mut l = LocalLibrary::new(vec![src]);
    let tuples = handle_match(&mut l, &"".to_string()).unwrap();
    for m in &tuples {
        let r = handle_run(&l, m.id.clone(), "".to_string());
        assert!(r.is_ok());
    }
    let r = handle_run(&l, "lutris_12".to_string(), "".to_string());
    assert!(matches!(r, Err(LibraryError::NotFound)));
}

#[test]
fn teardown_invalidates_previous_ids() {
    let src = FakeSource::new("lutris", vec![game("lutris", 10, "name", Some("/g"))]);
    let mut l = LocalLibrary::new(vec![src]);
    let tuples = handle_match(&mut l, &"test".to_string()).unwrap();
    let id = tuples[0].id.clone();
    handle_teardown(&mut l);
    let r = handle_run(&l, id.clone(), "".to_string());
    assert!(matches!(r, Err(LibraryError::NotFound)));
    let r = handle_run(&l, id, "open-dir".to_string());
    assert!(matches!(r, Err(LibraryError::NotFound)));
}

#[test]
fn merged_ids_are_pairwise_distinct() {
    let a = FakeSource::new(
        "lutris",
        vec![game("lutris", 10, "one", None), game("lutris", 11, "two", None)],
    );
    let b = FakeSource::new("steam", vec![game("steam", 10, "three", None)]);
    let mut l = LocalLibrary::new(vec![a, b]);
    let tuples = handle_match(&mut l, &"".to_string()).unwrap();
    assert_eq!(tuples.len(), 3);
    for i in 0..tuples.len() {
        for j in 0..tuples.len() {
            if i != j {
                assert_ne!(tuples[i].id, tuples[j].id);
            }
        }
    }
}

#[test]
fn a_failing_source_is_skipped() {
    let a = FakeSource {
        fail_query: true,
        ..FakeSource::new("lutris", vec![game("lutris", 10, "one", None)])
    };
    let b = FakeSource::new("steam", vec![game("steam", 7, "two", None)]);
    let mut l = LocalLibrary::new(vec![a, b]);
    let tuples = handle_match(&mut l, &"".to_string()).unwrap();
    assert_eq!(tuples.len(), 1);
    assert_eq!(tuples[0].id, "steam_7");
}

#[test]
fn launch_failure_is_reported_with_its_message() {
    let src = FakeSource {
        fail_run: true,
        ..FakeSource::new("lutris", vec![game("lutris", 10, "name", None)])
    };
    let mut l = LocalLibrary::new(vec![src]);
    handle_match(&mut l, &"test".to_string()).unwrap();
    let r = handle_run(&l, "lutris_10".to_string(), "".to_string());
    let e = r.unwrap_err();
    assert!(matches!(&e, LibraryError::Launch(m) if m == "launcher missing"));
    assert_eq!(e.describe(), "could not launch the game: launcher missing");
}

#[test]
fn reveal_failure_is_reported_with_its_message() {
    let src = FakeSource {
        fail_open: true,
        ..FakeSource::new("lutris", vec![game("lutris", 10, "name", Some("/g"))])
    };
    let mut l = LocalLibrary::new(vec![src]);
    handle_match(&mut l, &"test".to_string()).unwrap();
    let r = handle_run(&l, "lutris_10".to_string(), "open-dir".to_string());
    let e = r.unwrap_err();
    assert!(matches!(&e, LibraryError::Reveal(m) if m == "no file manager"));
    assert_eq!(e.describe(), "could not open the directory: no file manager");
}

#[test]
fn a_new_query_replaces_the_match_list() {
    let src = FakeSource::new("lutris", vec![game("lutris", 10, "name", None)]);
    let mut l = LocalLibrary::new(vec![src]);
    handle_match(&mut l, &"test".to_string()).unwrap();
    assert!(handle_run(&l, "lutris_10".to_string(), "".to_string()).is_ok());
    // The fake source serves the same list for every query, so the id stays
    // valid across queries; a run after a fresh query still resolves.
    handle_match(&mut l, &"again".to_string()).unwrap();
    assert!(handle_run(&l, "lutris_10".to_string(), "".to_string()).is_ok());
}
