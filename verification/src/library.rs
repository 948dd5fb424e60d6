//! The library aggregator: owns the set of game sources, fans a query out to
//! all of them, merges the results into the transient match list, and
//! resolves a later composite identifier back to its source and game.

use vstd::prelude::*;
use vstd::string::*;

use crate::game::{cid, clone_games, composite_id, lemma_composite_id_injective, Game};

verus! {

/// Failure reported by a game-source backend, with a human-readable message.
#[derive(Debug)]
pub struct SourceError {
    pub message: String,
}

/// Domain failure surfaced to the protocol layer, by kind.
#[derive(Debug)]
pub enum LibraryError {
    /// The composite identifier resolves to no game in the match list.
    NotFound,
    /// A backend query failed.
    Backend(String),
    /// The launch mechanism itself failed.
    Launch(String),
    /// Revealing the install directory failed.
    Reveal(String),
}

impl LibraryError {
    /// The human-readable description of the failure, carried to the remote
    /// caller as the protocol-level failure text.
    pub fn describe(&self) -> (r: String)
        ensures
            match self {
                LibraryError::NotFound => r@ == "game match not found!"@,
                LibraryError::Backend(m) => r@ == "backend query failed: "@ + m@,
                LibraryError::Launch(m) => r@ == "could not launch the game: "@ + m@,
                LibraryError::Reveal(m) => r@ == "could not open the directory: "@ + m@,
            },
    {
        match self {
            LibraryError::NotFound => String::from_str("game match not found!"),
            LibraryError::Backend(m) => String::from_str("backend query failed: ").concat(
                m.as_str(),
            ),
            LibraryError::Launch(m) => String::from_str("could not launch the game: ").concat(
                m.as_str(),
            ),
            LibraryError::Reveal(m) => String::from_str("could not open the directory: ").concat(
                m.as_str(),
            ),
        }
    }
}

/// The composite identifiers of the games are pairwise distinct.
pub open spec fn distinct_cids(s: Seq<Game>) -> bool {
    forall|i: int, j: int| 0 <= i < j < s.len() ==> cid(s[i]) != cid(s[j])
}

/// Some game in the list carries the given composite identifier.
pub open spec fn contains_cid(s: Seq<Game>, id: Seq<char>) -> bool {
    exists|i: int| 0 <= i < s.len() && cid(#[trigger] s[i]) == id
}

/// Every game in the list carries the given source tag.
pub open spec fn all_from_tag(games: Seq<Game>, tag: Seq<char>) -> bool {
    forall|i: int| 0 <= i < games.len() ==> (#[trigger] games[i]).src@ == tag
}

/// The backend-local identifiers of the games are pairwise distinct.
pub open spec fn distinct_ids(games: Seq<Game>) -> bool {
    forall|i: int, j: int| 0 <= i < j < games.len() ==> games[i].id != games[j].id
}

/// The sources carry pairwise distinct tags.
pub open spec fn distinct_source_tags<S: GameSource>(sources: Seq<S>) -> bool {
    forall|i: int, j: int|
        0 <= i < j < sources.len() ==> (#[trigger] sources[i]).tag() != (#[trigger] sources[j]).tag()
}

/// The game carries the tag of one of the given sources.
pub open spec fn from_some_source<S: GameSource>(g: Game, sources: Seq<S>) -> bool {
    exists|k: int| 0 <= k < sources.len() && g.src@ == (#[trigger] sources[k]).tag()
}

/// Every game in the list carries the tag of one of the given sources.
pub open spec fn games_from_sources<S: GameSource>(games: Seq<Game>, sources: Seq<S>) -> bool {
    forall|i: int| 0 <= i < games.len() ==> from_some_source(#[trigger] games[i], sources)
}

/// The concatenation of the per-source batches, in registration order.
pub open spec fn concat_batches(batches: Seq<Seq<Game>>) -> Seq<Game>
    decreases batches.len(),
{
    if batches.len() == 0 {
        Seq::<Game>::empty()
    } else {
        batches[0] + concat_batches(batches.drop_first())
    }
}

/// One source's contribution to a query: either an answer the source's own
/// contract allows — well-tagged, with pairwise distinct identifiers — or
/// the empty contribution of a source whose query failed and was skipped.
pub open spec fn query_batch<S: GameSource>(source: S, query: Seq<char>, batch: Seq<Game>) -> bool {
    ||| (exists|games: Vec<Game>|
        {
            &&& #[trigger] source.may_answer(query, Ok(games))
            &&& all_from_tag(games@, source.tag())
            &&& distinct_ids(games@)
            &&& batch == games@
        })
    ||| (exists|e: SourceError|
        #[trigger] source.may_answer(query, Err(e)) && batch == Seq::<Game>::empty())
}

/// One batch per registered source, each a contribution its source allows.
pub open spec fn query_batches<S: GameSource>(
    batches: Seq<Seq<Game>>,
    sources: Seq<S>,
    query: Seq<char>,
) -> bool {
    &&& batches.len() == sources.len()
    &&& (forall|k: int| 0 <= k < sources.len() ==> query_batch(sources[k], query, #[trigger] batches[k]))
}

/// Appending one batch extends the concatenation by exactly that batch.
proof fn lemma_concat_batches_push(batches: Seq<Seq<Game>>, batch: Seq<Game>)
    ensures
        concat_batches(batches.push(batch)) == concat_batches(batches) + batch,
    decreases batches.len(),
{
    reveal_with_fuel(concat_batches, 3);
    if batches.len() == 0 {
        assert(batches.push(batch).drop_first() =~= Seq::<Seq<Game>>::empty());
        assert(concat_batches(batches.push(batch)) =~= concat_batches(batches) + batch);
    } else {
        assert(batches.push(batch).drop_first() =~= batches.drop_first().push(batch));
        lemma_concat_batches_push(batches.drop_first(), batch);
        assert(concat_batches(batches.push(batch)) =~= concat_batches(batches) + batch);
    }
}

/// The concatenation of none but empty batches is empty.
proof fn lemma_concat_batches_all_empty(batches: Seq<Seq<Game>>)
    requires
        forall|k: int| 0 <= k < batches.len() ==> (#[trigger] batches[k]).len() == 0,
    ensures
        concat_batches(batches).len() == 0,
    decreases batches.len(),
{
    if batches.len() > 0 {
        assert(forall|k: int|
            0 <= k < batches.drop_first().len() ==> (#[trigger] batches.drop_first()[k]).len()
                == 0);
        lemma_concat_batches_all_empty(batches.drop_first());
    }
}

/// Law: when every registered source can only answer a query with an empty
/// result, the merged match list of that query is empty — and the query
/// call itself still succeeds, since the aggregator always returns success.
pub proof fn lemma_empty_sources_empty_match<S: GameSource>(
    batches: Seq<Seq<Game>>,
    sources: Seq<S>,
    query: Seq<char>,
)
    requires
        query_batches(batches, sources, query),
        forall|k: int, games: Vec<Game>|
            0 <= k < sources.len() && #[trigger] sources[k].may_answer(query, Ok(games))
                ==> games@.len() == 0,
    ensures
        concat_batches(batches).len() == 0,
{
    assert forall|k: int| 0 <= k < batches.len() implies (#[trigger] batches[k]).len() == 0 by {
        assert(query_batch(sources[k], query, batches[k]));
        if exists|games: Vec<Game>|
            {
                &&& #[trigger] sources[k].may_answer(query, Ok(games))
                &&& all_from_tag(games@, sources[k].tag())
                &&& distinct_ids(games@)
                &&& batches[k] == games@
            } {
            let games = choose|games: Vec<Game>|
                {
                    &&& #[trigger] sources[k].may_answer(query, Ok(games))
                    &&& all_from_tag(games@, sources[k].tag())
                    &&& distinct_ids(games@)
                    &&& batches[k] == games@
                };
            assert(games@.len() == 0);
        }
    }
    lemma_concat_batches_all_empty(batches);
}

/// Exhibiting the source at one position establishes the game's origin.
proof fn lemma_from_some_source_intro<S: GameSource>(g: Game, sources: Seq<S>, k: int)
    requires
        0 <= k < sources.len(),
        g.src@ == sources[k].tag(),
    ensures
        from_some_source(g, sources),
{
}

/// A position witnessing the game's origin among the sources.
proof fn lemma_from_some_source_elim<S: GameSource>(g: Game, sources: Seq<S>) -> (k: int)
    requires
        from_some_source(g, sources),
    ensures
        0 <= k < sources.len(),
        g.src@ == sources[k].tag(),
{
    choose|k: int| 0 <= k < sources.len() && g.src@ == (#[trigger] sources[k]).tag()
}

/// Law: an identifier taken from the list a query just returned is present
/// in the match list the query stored, so a run or open-directory call made
/// with it right away is never refused as "not found" — by the library
/// contract it is refused exactly when the identifier is absent.
pub proof fn lemma_returned_id_resolves(match_list: Seq<Game>, games: Seq<Game>, i: int)
    requires
        match_list == games,
        0 <= i < games.len(),
    ensures
        contains_cid(match_list, cid(games[i])),
{
    assert(cid(match_list[i]) == cid(games[i]));
}

/// Law: after a teardown the match list is empty, so no identifier at all
/// resolves, and every subsequent run or open-directory call — with a
/// previously valid identifier or any other — is refused as "not found".
pub proof fn lemma_empty_list_resolves_nothing(id: Seq<char>)
    ensures
        !contains_cid(Seq::<Game>::empty(), id),
{
}

/// A backend capable of searching its own catalog and acting on one game.
///
/// Any number of backends may implement this contract; the aggregator treats
/// them uniformly. Each source is identified by a short tag, and every game
/// it returns must carry that tag in its `src` field, with backend-local
/// identifiers unique within the returned list.
pub trait GameSource: Sized {
    /// The tag that identifies this source among all registered sources.
    /// A verified source overrides this with its own tag; the default stands
    /// for sources whose code is not seen by the verifier.
    open spec fn tag(&self) -> Seq<char> {
        Seq::<char>::empty()
    }

    /// The source's tag, as a string.
    fn tag_name(&self) -> (t: String)
        ensures
            t@ == self.tag(),
    ;

    /// The answers this source's query may give. A verified source overrides
    /// this with an exact description of its behaviour, and `query_game`
    /// promises to stay within it; the aggregator's contract then carries
    /// each source's own description out to its callers. The default admits
    /// every answer, which is all that can be said of a source whose code is
    /// not seen by the verifier.
    open spec fn may_answer(&self, query: Seq<char>, r: Result<Vec<Game>, SourceError>) -> bool {
        true
    }

    /// Returns the installed games whose content matches the query text.
    /// No results is success, not an error.
    fn query_game(&self, query: &String) -> (r: Result<Vec<Game>, SourceError>)
        ensures
            r matches Ok(games) ==> all_from_tag(games@, self.tag()) && distinct_ids(games@),
            self.may_answer(query@, r),
    ;

    /// Launches the given game outside the process; an error means the
    /// launch mechanism itself failed.
    fn run_game(&self, game: &Game) -> Result<(), SourceError>;

    /// Reveals the game's install directory. Only called for games whose
    /// directory is present.
    fn open_dir(&self, game: &Game) -> Result<(), SourceError>;
}

/// The aggregator's operations, as the protocol adapter sees them.
pub trait Library: Sized {
    /// Well-formedness of the library's state. A verified library overrides
    /// this with its own invariant; the default stands for libraries whose
    /// code is not seen by the verifier.
    open spec fn inv(&self) -> bool {
        true
    }

    /// The match list: the games produced by the most recent query.
    /// A verified library overrides this with its own state.
    open spec fn match_list(&self) -> Seq<Game> {
        Seq::<Game>::empty()
    }

    /// Whether this library's query is known to always succeed. The verified
    /// aggregator overrides this with `true` — it skips failing sources
    /// instead of failing itself; the default promises nothing of a library
    /// whose code is not seen by the verifier.
    open spec fn query_always_succeeds(&self) -> bool {
        false
    }

    /// Replaces the match list with the merged results of a fresh query and
    /// returns them; the returned games carry pairwise distinct composite
    /// identifiers.
    fn query_game(&mut self, query: &String) -> (r: Result<Vec<Game>, LibraryError>)
        requires
            old(self).inv(),
        ensures
            final(self).inv(),
            old(self).query_always_succeeds() ==> r is Ok,
            r matches Ok(games) ==> final(self).match_list() == games@ && distinct_cids(games@),
            r is Err ==> final(self).match_list() == old(self).match_list(),
    ;

    /// Resolves the composite identifier in the match list and launches the
    /// game; fails with "not found" exactly when the identifier resolves to
    /// no game.
    fn run_game(&self, id: String) -> (r: Result<(), LibraryError>)
        requires
            self.inv(),
        ensures
            (r matches Err(LibraryError::NotFound)) <==> !contains_cid(self.match_list(), id@),
    ;

    /// Resolves the composite identifier and reveals the game's install
    /// directory; a game without a directory is a no-op success.
    fn open_dir(&self, id: String) -> (r: Result<(), LibraryError>)
        requires
            self.inv(),
        ensures
            (r matches Err(LibraryError::NotFound)) <==> !contains_cid(self.match_list(), id@),
            (exists|i: int|
                0 <= i < self.match_list().len() && cid(#[trigger] self.match_list()[i]) == id@
                    && self.match_list()[i].directory is None) ==> r is Ok,
    ;

    /// Clears the match list. Idempotent.
    fn teardown(&mut self)
        requires
            old(self).inv(),
        ensures
            final(self).inv(),
            final(self).match_list() == Seq::<Game>::empty(),
    ;
}

/// The aggregator: the registered sources, in registration order, and the
/// match list of the most recent query.
pub struct LocalLibrary<S> {
    sources: Vec<S>,
    matches: Vec<Game>,
}

impl<S: GameSource> LocalLibrary<S> {
    /// The registered sources carry pairwise distinct tags, every stored game
    /// was produced by a registered source, and the stored games carry
    /// pairwise distinct composite identifiers.
    closed spec fn wf(&self) -> bool {
        &&& distinct_source_tags(self.sources@)
        &&& games_from_sources(self.matches@, self.sources@)
        &&& distinct_cids(self.matches@)
    }

    /// The registered sources, in registration order.
    pub closed spec fn registered_sources(&self) -> Seq<S> {
        self.sources@
    }

    /// The tags of the registered sources, in registration order.
    pub closed spec fn source_tags(&self) -> Seq<Seq<char>> {
        self.sources@.map_values(|s: S| s.tag())
    }

    /// Builds an aggregator over the given sources, with an empty match list.
    /// The sources' tags must be pairwise distinct, so that composite
    /// identifiers never collide across sources.
    pub fn new(sources: Vec<S>) -> (l: Self)
        requires
            distinct_source_tags(sources@),
        ensures
            l.inv(),
            l.match_list() == Seq::<Game>::empty(),
            l.registered_sources() == sources@,
            l.source_tags() == sources@.map_values(|s: S| s.tag()),
    {
        LocalLibrary { sources, matches: Vec::new() }
    }

    /// Finds the position of the first stored game carrying the given
    /// composite identifier.
    fn find_game(&self, id: &String) -> (r: Option<usize>)
        ensures
            match r {
                Some(i) => i < self.matches@.len() && cid(self.matches@[i as int]) == id@,
                None => !contains_cid(self.matches@, id@),
            },
    {
        let mut i: usize = 0;
        while i < self.matches.len()
            invariant
                i <= self.matches@.len(),
                forall|k: int| 0 <= k < i ==> cid(#[trigger] self.matches@[k]) != id@,
            decreases self.matches@.len() - i,
        {
            let g = &self.matches[i];
            let gid = composite_id(g.src.as_str(), g.id);
            if gid == *id {
                return Some(i);
            }
            i += 1;
        }
        None
    }

    /// Finds the position of the registered source carrying the given tag.
    fn find_source(&self, tag: &String) -> (r: Option<usize>)
        ensures
            match r {
                Some(k) => k < self.sources@.len() && self.sources@[k as int].tag() == tag@,
                None => forall|k: int|
                    0 <= k < self.sources@.len() ==> (#[trigger] self.sources@[k]).tag() != tag@,
            },
    {
        let mut k: usize = 0;
        while k < self.sources.len()
            invariant
                k <= self.sources@.len(),
                forall|j: int| 0 <= j < k ==> (#[trigger] self.sources@[j]).tag() != tag@,
            decreases self.sources@.len() - k,
        {
            let t = self.sources[k].tag_name();
            if t == *tag {
                return Some(k);
            }
            k += 1;
        }
        None
    }
}

/// Concatenating a batch of games from one source onto a merged list keeps
/// the composite identifiers pairwise distinct, provided the batch's tag is
/// new: within the batch the backend-local identifiers differ, and across
/// the boundary the source tags differ, so by injectivity of the composite
/// identifier no two games collide.
proof fn lemma_append_batch(a: Seq<Game>, b: Seq<Game>, tag: Seq<char>)
    requires
        distinct_cids(a),
        forall|i: int| 0 <= i < a.len() ==> (#[trigger] a[i]).src@ != tag,
        all_from_tag(b, tag),
        distinct_ids(b),
    ensures
        distinct_cids(a + b),
{
    let c = a + b;
    assert forall|i: int, j: int| 0 <= i < j < c.len() implies cid(c[i]) != cid(c[j]) by {
        if j < a.len() {
        } else if i >= a.len() {
            assert(c[i] == b[i - a.len()]);
            assert(c[j] == b[j - a.len()]);
            if cid(c[i]) == cid(c[j]) {
                lemma_composite_id_injective(c[i].src@, c[i].id, c[j].src@, c[j].id);
            }
        } else {
            assert(c[i] == a[i]);
            assert(c[j] == b[j - a.len()]);
            if cid(c[i]) == cid(c[j]) {
                lemma_composite_id_injective(c[i].src@, c[i].id, c[j].src@, c[j].id);
            }
        }
    }
}

/// A game list drawn from a prefix of the sources is also drawn from the
/// next longer prefix.
proof fn lemma_from_sources_grow<S: GameSource>(games: Seq<Game>, sources: Seq<S>, n: int)
    requires
        0 <= n < sources.len(),
        games_from_sources(games, sources.take(n)),
    ensures
        games_from_sources(games, sources.take(n + 1)),
{
    assert forall|i: int| 0 <= i < games.len() implies from_some_source(
        #[trigger] games[i],
        sources.take(n + 1),
    ) by {
        let k0 = lemma_from_some_source_elim(games[i], sources.take(n));
        assert(sources.take(n + 1)[k0] == sources.take(n)[k0]);
        lemma_from_some_source_intro(games[i], sources.take(n + 1), k0);
    }
}

/// Merging one source's batch behind the lists drawn from the earlier
/// sources keeps the composite identifiers pairwise distinct and keeps every
/// game attributable to a registered source.
proof fn lemma_merge_batch<S: GameSource>(a: Seq<Game>, b: Seq<Game>, sources: Seq<S>, n: int)
    requires
        0 <= n < sources.len(),
        distinct_source_tags(sources),
        distinct_cids(a),
        games_from_sources(a, sources.take(n)),
        all_from_tag(b, sources[n].tag()),
        distinct_ids(b),
    ensures
        distinct_cids(a + b),
        games_from_sources(a + b, sources.take(n + 1)),
{
    let t = sources[n].tag();
    assert forall|i: int| 0 <= i < a.len() implies (#[trigger] a[i]).src@ != t by {
        let k0 = lemma_from_some_source_elim(a[i], sources.take(n));
        assert(sources.take(n)[k0] == sources[k0]);
        assert(sources[k0].tag() != sources[n].tag());
    }
    lemma_append_batch(a, b, t);
    let c = a + b;
    assert forall|i: int| 0 <= i < c.len() implies from_some_source(
        #[trigger] c[i],
        sources.take(n + 1),
    ) by {
        if i < a.len() {
            assert(c[i] == a[i]);
            let k0 = lemma_from_some_source_elim(a[i], sources.take(n));
            assert(sources.take(n + 1)[k0] == sources.take(n)[k0]);
            lemma_from_some_source_intro(c[i], sources.take(n + 1), k0);
        } else {
            assert(c[i] == b[i - a.len()]);
            assert(c[i].src@ == t);
            assert(sources.take(n + 1)[n] == sources[n]);
            lemma_from_some_source_intro(c[i], sources.take(n + 1), n);
        }
    }
}

impl<S: GameSource> Library for LocalLibrary<S> {
    closed spec fn inv(&self) -> bool {
        self.wf()
    }

    closed spec fn match_list(&self) -> Seq<Game> {
        self.matches@
    }

    /// The aggregator's query always succeeds: a failing source is skipped,
    /// never surfaced as a failure of the whole call.
    open spec fn query_always_succeeds(&self) -> bool {
        true
    }

    /// Queries every registered source in registration order and stores the
    /// concatenation of their results as the new match list. A source whose
    /// query fails is skipped and contributes nothing, while the remaining
    /// sources' results are still merged: the sources are independent. The
    /// call itself therefore always succeeds, and the returned list is the
    /// concatenation, in registration order, of one batch per source, each
    /// an answer that source's own contract allows — or empty where it
    /// failed.
    fn query_game(&mut self, query: &String) -> (r: Result<Vec<Game>, LibraryError>)
        ensures
            r is Ok,
            final(self).registered_sources() == old(self).registered_sources(),
            final(self).source_tags() == old(self).source_tags(),
            r matches Ok(games) ==> (forall|i: int|
                0 <= i < games@.len() ==> final(self).source_tags().contains(
                    (#[trigger] games@[i]).src@,
                )),
            r matches Ok(games) ==> (exists|batches: Seq<Seq<Game>>|
                #[trigger] query_batches(batches, old(self).registered_sources(), query@)
                    && games@ == concat_batches(batches)),
    {
        let mut all: Vec<Game> = Vec::new();
        let ghost mut batches: Seq<Seq<Game>> = Seq::<Seq<Game>>::empty();
        let mut idx: usize = 0;
        while idx < self.sources.len()
            invariant
                *self == *old(self),
                old(self).wf(),
                idx <= self.sources@.len(),
                distinct_cids(all@),
                games_from_sources(all@, self.sources@.take(idx as int)),
                batches.len() == idx,
                all@ == concat_batches(batches),
                forall|k: int|
                    0 <= k < idx ==> query_batch(self.sources@[k], query@, #[trigger] batches[k]),
            decreases self.sources@.len() - idx,
        {
            match self.sources[idx].query_game(query) {
                Ok(games) => {
                    proof {
                        lemma_merge_batch(all@, games@, self.sources@, idx as int);
                        lemma_concat_batches_push(batches, games@);
                        assert(query_batch(self.sources@[idx as int], query@, games@)) by {
                            assert(self.sources@[idx as int].may_answer(query@, Ok(games)));
                        }
                        batches = batches.push(games@);
                    }
                    let ghost all_before = all@;
                    let mut j: usize = 0;
                    while j < games.len()
                        invariant
                            j <= games@.len(),
                            all@ =~= all_before + games@.subrange(0, j as int),
                        decreases games@.len() - j,
                    {
                        all.push(games[j].clone());
                        j += 1;
                    }
                    proof {
                        assert(all@ =~= all_before + games@);
                    }
                },
                Err(e) => {
                    proof {
                        lemma_from_sources_grow(all@, self.sources@, idx as int);
                        lemma_concat_batches_push(batches, Seq::<Game>::empty());
                        assert(query_batch(
                            self.sources@[idx as int],
                            query@,
                            Seq::<Game>::empty(),
                        )) by {
                            assert(self.sources@[idx as int].may_answer(query@, Err(e)));
                        }
                        batches = batches.push(Seq::<Game>::empty());
                        assert(all@ =~= concat_batches(batches));
                    }
                },
            }
            idx += 1;
        }
        proof {
            assert(self.sources@.take(self.sources@.len() as int) =~= self.sources@);
            assert(query_batches(batches, self.sources@, query@));
        }
        self.matches = all;
        proof {
            assert(self.wf());
            let tags = self.source_tags();
            assert forall|i: int| 0 <= i < self.matches@.len() implies tags.contains(
                (#[trigger] self.matches@[i]).src@,
            ) by {
                let k0 = lemma_from_some_source_elim(self.matches@[i], self.sources@);
                assert(tags[k0] == self.sources@[k0].tag());
                assert(tags.contains(self.matches@[i].src@));
            }
        }
        let result = clone_games(&self.matches);
        Ok(result)
    }

    /// Resolves the identifier by linear scan of the match list and delegates
    /// the launch to the game's own source.
    fn run_game(&self, id: String) -> (r: Result<(), LibraryError>)
        ensures
            contains_cid(self.match_list(), id@) ==> (r is Ok || r matches Err(
                LibraryError::Launch(_),
            )),
    {
        match self.find_game(&id) {
            None => Err(LibraryError::NotFound),
            Some(gi) => {
                let g = &self.matches[gi];
                match self.find_source(&g.src) {
                    None => {
                        // Unreachable: well-formedness attributes every stored
                        // game to a registered source.
                        proof {
                            assert(from_some_source(self.matches@[gi as int], self.sources@));
                            let k0 = lemma_from_some_source_elim(
                                self.matches@[gi as int],
                                self.sources@,
                            );
                            assert(false);
                        }
                        Err(LibraryError::NotFound)
                    },
                    Some(si) => {
                        match self.sources[si].run_game(g) {
                            Ok(()) => Ok(()),
                            Err(e) => Err(LibraryError::Launch(e.message)),
                        }
                    },
                }
            },
        }
    }

    /// Resolves the identifier and reveals the game's install directory.
    /// A game without a directory is answered with success directly, without
    /// invoking any reveal facility.
    fn open_dir(&self, id: String) -> (r: Result<(), LibraryError>)
        ensures
            contains_cid(self.match_list(), id@) ==> (r is Ok || r matches Err(
                LibraryError::Reveal(_),
            )),
    {
        match self.find_game(&id) {
            None => Err(LibraryError::NotFound),
            Some(gi) => {
                let g = &self.matches[gi];
                if g.directory.is_none() {
                    return Ok(());
                }
                proof {
                    assert forall|i: int|
                        0 <= i < self.matches@.len() && cid(#[trigger] self.matches@[i]) == id@
                            implies self.matches@[i].directory is Some by {
                        assert(self.matches@[i] == self.matches@[gi as int]);
                    }
                }
                match self.find_source(&g.src) {
                    None => {
                        // Unreachable: well-formedness attributes every stored
                        // game to a registered source.
                        proof {
                            assert(from_some_source(self.matches@[gi as int], self.sources@));
                            let k0 = lemma_from_some_source_elim(
                                self.matches@[gi as int],
                                self.sources@,
                            );
                            assert(false);
                        }
                        Err(LibraryError::NotFound)
                    },
                    Some(si) => {
                        match self.sources[si].open_dir(g) {
                            Ok(()) => Ok(()),
                            Err(e) => Err(LibraryError::Reveal(e.message)),
                        }
                    },
                }
            },
        }
    }

    /// Clears the match list; the registered sources are kept.
    fn teardown(&mut self)
        ensures
            final(self).registered_sources() == old(self).registered_sources(),
            final(self).source_tags() == old(self).source_tags(),
    {
        self.matches = Vec::new();
    }
}

} // verus!
