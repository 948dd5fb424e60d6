//! The protocol adapter: the four remote operations of the search protocol,
//! each a direct translation over a library, and the marshalling of a game
//! into the fixed wire tuple shape.

use vstd::prelude::*;
use vstd::string::*;

use crate::game::{cid, composite_id, Game};
use crate::library::{contains_cid, distinct_cids, Library, LibraryError};

verus! {

/// One secondary action offered on matches, in wire order: identifier,
/// display label, icon name.
#[derive(Debug)]
pub struct RunnerAction {
    pub id: String,
    pub label: String,
    pub icon: String,
}

/// The wire shape of one match, in wire order. The relevance is a constant
/// one hundred percent: the protocol carries it as a floating-point number,
/// which the transport layer derives from `relevance_percent`.
#[derive(Debug)]
pub struct MatchTuple {
    /// The composite identifier `"{src}_{id}"`.
    pub id: String,
    /// The game's display title.
    pub title: String,
    /// The game's icon identifier.
    pub icon: String,
    /// The match category constant: plain "executable" match.
    pub match_type: i32,
    /// The constant relevance, in percent.
    pub relevance_percent: u32,
    /// The game's display grouping label, under the "category" property key.
    pub category: String,
    /// The offered secondary actions, under the "actions" property key.
    pub actions: Vec<String>,
}

/// The tuple is the faithful marshalling of the game: identifier, title and
/// icon taken over, the two constants, and the "open-dir" action offered
/// exactly when the game has a directory.
pub open spec fn tuple_matches_game(t: MatchTuple, g: Game) -> bool {
    &&& t.id@ == cid(g)
    &&& t.title@ == g.name@
    &&& t.icon@ == g.icon@
    &&& t.match_type == 30
    &&& t.relevance_percent == 100
    &&& t.category@ == g.category@
    &&& (g.directory is Some ==> t.actions@.len() == 1 && t.actions@[0]@ == "open-dir"@)
    &&& (g.directory is None ==> t.actions@.len() == 0)
}

/// Marshals one game into the wire tuple. A game with a directory offers the
/// "open-dir" action; a game without one offers no action at all.
pub fn to_match_tuple(g: &Game) -> (t: MatchTuple)
    ensures
        tuple_matches_game(t, *g),
{
    let mut actions: Vec<String> = Vec::new();
    if g.directory.is_some() {
        actions.push(String::from_str("open-dir"));
    }
    MatchTuple {
        id: composite_id(g.src.as_str(), g.id),
        title: g.name.clone(),
        icon: g.icon.clone(),
        match_type: 30,
        relevance_percent: 100,
        category: g.category.clone(),
        actions,
    }
}

/// Tuples marshalled from games with pairwise distinct composite identifiers
/// carry pairwise distinct wire identifiers themselves.
pub proof fn lemma_tuples_distinct(ts: Seq<MatchTuple>, games: Seq<Game>)
    requires
        distinct_cids(games),
        ts.len() == games.len(),
        forall|i: int| 0 <= i < ts.len() ==> tuple_matches_game(#[trigger] ts[i], games[i]),
    ensures
        forall|i: int, j: int| 0 <= i < j < ts.len() ==> ts[i].id@ != ts[j].id@,
{
    assert forall|i: int, j: int| 0 <= i < j < ts.len() implies ts[i].id@ != ts[j].id@ by {
        assert(tuple_matches_game(ts[i], games[i]));
        assert(tuple_matches_game(ts[j], games[j]));
    }
}

/// The static list of supported secondary actions: only "open directory".
pub fn actions() -> (r: Vec<RunnerAction>)
    ensures
        r@.len() == 1,
        r@[0].id@ == "open-dir"@,
        r@[0].label@ == "Open Directory"@,
        r@[0].icon@ == "folder-open-symbolic"@,
{
    let mut v: Vec<RunnerAction> = Vec::new();
    v.push(
        RunnerAction {
            id: String::from_str("open-dir"),
            label: String::from_str("Open Directory"),
            icon: String::from_str("folder-open-symbolic"),
        },
    );
    v
}

/// The remote "match" operation: runs the query and marshals every returned
/// game, in order, into its wire tuple.
pub fn handle_match<L: Library>(l: &mut L, query: &String) -> (r: Result<
    Vec<MatchTuple>,
    LibraryError,
>)
    requires
        old(l).inv(),
    ensures
        final(l).inv(),
        old(l).query_always_succeeds() ==> r is Ok,
        r matches Ok(ts) ==> {
            &&& ts@.len() == final(l).match_list().len()
            &&& (forall|i: int|
                0 <= i < ts@.len() ==> tuple_matches_game(
                    #[trigger] ts@[i],
                    final(l).match_list()[i],
                ))
            &&& distinct_cids(final(l).match_list())
        },
        r is Err ==> final(l).match_list() == old(l).match_list(),
{
    match l.query_game(query) {
        Err(e) => Err(e),
        Ok(games) => {
            let mut ts: Vec<MatchTuple> = Vec::new();
            let mut i: usize = 0;
            while i < games.len()
                invariant
                    i <= games@.len(),
                    ts@.len() == i,
                    forall|k: int|
                        0 <= k < i ==> tuple_matches_game(#[trigger] ts@[k], games@[k]),
                decreases games@.len() - i,
            {
                let t = to_match_tuple(&games[i]);
                ts.push(t);
                i += 1;
            }
            Ok(ts)
        },
    }
}

/// The remote "run" operation: an "open-dir" action identifier routes to the
/// open-directory operation, any other action identifier to the primary run.
pub fn handle_run<L: Library>(l: &L, match_id: String, action: String) -> (r: Result<
    (),
    LibraryError,
>)
    requires
        l.inv(),
    ensures
        (r matches Err(LibraryError::NotFound)) <==> !contains_cid(l.match_list(), match_id@),
        action@ == "open-dir"@ && (exists|i: int|
            0 <= i < l.match_list().len() && cid(#[trigger] l.match_list()[i]) == match_id@
                && l.match_list()[i].directory is None) ==> r is Ok,
{
    let open_dir_action = String::from_str("open-dir");
    if action == open_dir_action {
        l.open_dir(match_id)
    } else {
        l.run_game(match_id)
    }
}

/// The remote "teardown" operation: discards the current result set.
pub fn handle_teardown<L: Library>(l: &mut L)
    requires
        old(l).inv(),
    ensures
        final(l).inv(),
        final(l).match_list() == Seq::<Game>::empty(),
{
    l.teardown();
}

} // verus!
