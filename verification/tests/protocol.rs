use krunner_lutris::adapter::{actions, handle_match, handle_run};
use krunner_lutris::game::Game;
use krunner_lutris::library::{Library, LibraryError};

struct TestLibrary {}

impl TestLibrary {
    fn new() -> Self {
        TestLibrary {}
    }
}

impl Library for TestLibrary {
    fn query_game(&mut self, query: &String) -> Result<Vec<Game>, LibraryError> {
        if query == "test" {
            Ok(vec![Game {
                category: "cat".to_string(),
                name: "name".to_string(),
                src: "src".to_string(),
                id: 10,
                directory: Some("a".to_string()),
                icon: "icon".to_string(),
            }])
        } else {
            Ok(vec![])
        }
    }

    fn run_game(&self, _id: String) -> Result<(), LibraryError> {
        unreachable!()
    }

    fn open_dir(&self, _id: String) -> Result<(), LibraryError> {
        unreachable!()
    }

    fn teardown(&mut self) {
        unreachable!()
    }
}

#[test]
fn query() {
    let mut s = TestLibrary::new();
    let tuples = handle_match(&mut s, &"test".to_string()).unwrap();
    let m = &tuples[0];
    assert_eq!(m.id, "src_10");
    assert_eq!(m.title, "name");
    assert_eq!(m.icon, "icon");
    assert_eq!(m.match_type, 30);
    assert_eq!(m.relevance_percent as f64, 100.0);
    let acts: Vec<&str> = m.actions.iter().map(|a| a.as_str()).collect();
    assert_eq!(acts, vec!["open-dir"]);
    assert_eq!(m.category, "cat");
}

#[test]
fn query_without_results_is_empty() {
    let mut s = TestLibrary::new();
    let tuples = handle_match(&mut s, &"other".to_string()).unwrap();
    assert!(tuples.is_empty());
}

struct FailingLibrary {}

impl Library for FailingLibrary {
    fn query_game(&mut self, _query: &String) -> Result<Vec<Game>, LibraryError> {
        Err(LibraryError::Backend("catalog unreachable".to_string()))
    }

    fn run_game(&self, _id: String) -> Result<(), LibraryError> {
        Err(LibraryError::NotFound)
    }

    fn open_dir(&self, _id: String) -> Result<(), LibraryError> {
        Err(LibraryError::NotFound)
    }

    fn teardown(&mut self) {}
}

#[test]
fn query_failure_is_passed_through() {
    let mut s = FailingLibrary {};
    let r = handle_match(&mut s, &"test".to_string());
    let e = r.unwrap_err();
    assert!(matches!(&e, LibraryError::Backend(m) if m == "catalog unreachable"));
    assert_eq!(e.describe(), "backend query failed: catalog unreachable");
}

#[test]
fn run_routes_by_action_identifier() {
    // Any action identifier other than "open-dir" routes to the primary run;
    // this library answers both routes with "not found".
    let s = FailingLibrary {};
    let r = handle_run(&s, "src_10".to_string(), "".to_string());
    assert!(matches!(r, Err(LibraryError::NotFound)));
    let r = handle_run(&s, "src_10".to_string(), "open-dir".to_string());
    assert!(matches!(r, Err(LibraryError::NotFound)));
}

#[test]
fn actions_offer_open_dir_only() {
    let a = actions();
    assert_eq!(a.len(), 1);
    assert_eq!(a[0].id, "open-dir");
    assert_eq!(a[0].label, "Open Directory");
    assert_eq!(a[0].icon, "folder-open-symbolic");
}
