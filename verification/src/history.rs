//! The watch-history pipeline: one raw activity entry after another is
//! resolved to an episode or a movie, annotated with genres and appended to the
//! result.
//!
//! The pipeline never talks to the upstream service itself. It says which
//! request it needs answered next, the caller performs it and hands the reply
//! back. Genre lists are remembered per series and per movie listing for the
//! lifetime of one pipeline.

use vstd::hash_map::StringHashMap;
use vstd::prelude::*;
use vstd::string::*;

use crate::genres::{
    category_labels, resolve_genres, resolved_genres, CategoryLabel, CategoryTaxonomy,
    LocalizedCategory,
};
use crate::models::{clone_texts, pictures, records, texts, HistoryEntry, HistoryRecord, Image};
use crate::text::{decimal, decimal_string};

verus! {

/// A resolved episode, as far as the pipeline reads it.
#[derive(Debug)]
pub struct Episode {
    pub id: String,
    pub series_id: String,
    pub series_title: String,
    pub title: String,
    pub duration_ms: i64,
    pub images: Vec<Image>,
    pub categories: Vec<String>,
}

/// A resolved movie, as far as the pipeline reads it.
#[derive(Debug)]
pub struct Movie {
    pub id: String,
    pub movie_listing_id: String,
    pub title: String,
    pub duration_ms: i64,
    pub images: Vec<Image>,
}

/// A resolved, typed media unit.
#[derive(Debug)]
pub enum Content {
    Episode(Episode),
    Movie(Movie),
    /// Any kind of content that the history does not show.
    Other,
}

/// One entry of the upstream activity stream.
#[derive(Debug)]
pub struct RawEntry {
    pub id: String,
    pub parent_id: String,
    pub parent_type: String,
    pub playhead: u32,
    /// When the title was played, in seconds since the Unix epoch.
    pub played_at: i64,
    /// The same instant as text, as it is shown.
    pub watched_at: String,
    pub panel: Option<Content>,
}

/// How far back the scan goes.
#[derive(Debug)]
pub struct Horizon {
    /// The current time, in seconds since the Unix epoch.
    pub now: i64,
    /// The greatest age, in seconds, of an entry that is still scanned.
    pub max_age: i64,
}

/// What the caller has to do next.
#[derive(Debug)]
pub enum Request {
    /// Pull the next entry of the activity stream.
    NextEntry,
    /// Resolve the content with this identifier.
    Lookup(String),
    /// Fetch the series with this identifier and report its categories.
    SeriesCategories(String),
    /// Fetch the localized categories of the episode's series.
    SeriesLocalized(String),
    /// Fetch the movie listing with this identifier and report its categories.
    ListingCategories(String),
    /// Fetch the localized categories of the movie listing.
    ListingLocalized(String),
    /// Stop pulling: the scan is over.
    Stop,
}

/// The answer to a [`Request`].
#[derive(Debug)]
pub enum Reply {
    Entry(RawEntry),
    Content(Result<Content, String>),
    Categories(Result<Vec<String>, String>),
    Localized(Result<Vec<LocalizedCategory>, String>),
}

/// Something worth a warning that happened while a reply was handled.
#[derive(Debug)]
pub enum Notice {
    Nothing,
    /// The entry carried no content and no lookup found any; it was dropped.
    /// `parent_error` is `None` when the parent lookup was skipped because the
    /// parent's identifier is the entry's own.
    Unresolved {
        entry_id: String,
        parent_type: String,
        parent_id: String,
        entry_error: String,
        parent_error: Option<String>,
    },
    SeriesUnavailable { series_id: String, error: String },
    SeriesCategoriesUnavailable { series_id: String, error: String },
    ListingUnavailable { listing_id: String, error: String },
    ListingCategoriesUnavailable { listing_id: String, error: String },
}

/// The outcome of handling one reply.
#[derive(Debug)]
pub struct Step {
    pub request: Request,
    pub notice: Notice,
}

/// The request whose reply the pipeline is waiting for, with what it keeps
/// until the reply comes.
#[derive(Debug)]
pub enum Pending {
    /// Waiting for the next stream entry.
    Idle,
    /// Waiting for the lookup by the entry's own identifier.
    EntryLookup { entry: RawEntry },
    /// Waiting for the lookup by the identifier of the entry's parent.
    ParentLookup { entry: RawEntry, entry_error: String },
    /// Waiting for the categories of the episode's series.
    SeriesCategories { episode: Episode, playhead: u32, watched_at: String },
    /// Waiting for the localized categories of the episode's series.
    SeriesLocalized { episode: Episode, playhead: u32, watched_at: String },
    /// Waiting for the categories of the movie's listing.
    ListingCategories { movie: Movie, playhead: u32, watched_at: String },
    /// Waiting for the localized categories of the movie's listing.
    ListingLocalized { movie: Movie, playhead: u32, watched_at: String },
    /// The scan met an entry beyond the horizon and is over.
    Finished,
}

/// Genre lists by series or listing identifier.
pub type GenreMemo = Map<Seq<char>, Seq<Seq<char>>>;

/// Mathematical content of a [`Pipeline`].
pub struct Progress {
    pub records: Seq<HistoryRecord>,
    pub series_memo: GenreMemo,
    pub listing_memo: GenreMemo,
    pub titles: Map<Seq<char>, Seq<char>>,
    pub horizon: Option<Horizon>,
    pub pending: Pending,
}

/// The label of the record at position `index` of a response.
pub open spec fn item_label(index: nat) -> Seq<char> {
    seq!['i', 't', 'e', 'm', '-'] + decimal(index)
}

/// A signed millisecond count reinterpreted as unsigned, modulo 2^64.
pub open spec fn unsigned_ms(d: i64) -> u64 {
    if d >= 0 {
        d as u64
    } else {
        (d + 0x1_0000_0000_0000_0000) as u64
    }
}

/// The record made of an episode.
pub open spec fn episode_record(
    index: nat,
    episode: Episode,
    playhead: u32,
    watched_at: String,
    genres: Seq<Seq<char>>,
) -> HistoryRecord {
    HistoryRecord {
        id: item_label(index),
        media_type: "episode"@,
        content_id: Some(episode.id@),
        series_id: Some(episode.series_id@),
        movie_listing_id: None,
        title: episode.series_title@,
        episode_title: Some(episode.title@),
        watched_at: Some(watched_at@),
        playhead: Some(playhead),
        duration_ms: Some(unsigned_ms(episode.duration_ms)),
        images: pictures(episode.images@),
        genres,
    }
}

/// The record made of a movie.
pub open spec fn movie_record(
    index: nat,
    movie: Movie,
    playhead: u32,
    watched_at: String,
    genres: Seq<Seq<char>>,
) -> HistoryRecord {
    HistoryRecord {
        id: item_label(index),
        media_type: "movie"@,
        content_id: Some(movie.id@),
        series_id: None,
        movie_listing_id: Some(movie.movie_listing_id@),
        title: movie.title@,
        episode_title: None,
        watched_at: Some(watched_at@),
        playhead: Some(playhead),
        duration_ms: Some(unsigned_ms(movie.duration_ms)),
        images: pictures(movie.images@),
        genres,
    }
}

/// Whether an entry played at `played_at` lies beyond the horizon.
pub open spec fn beyond(horizon: Option<Horizon>, played_at: i64) -> bool {
    match horizon {
        Some(h) => h.now - played_at > h.max_age,
        None => false,
    }
}

/// The state after an episode was appended with `genres`, which are
/// remembered for its series.
pub open spec fn settled_episode(
    s: Progress,
    episode: Episode,
    playhead: u32,
    watched_at: String,
    genres: Seq<Seq<char>>,
) -> Progress {
    Progress {
        records: s.records.push(
            episode_record(s.records.len(), episode, playhead, watched_at, genres),
        ),
        series_memo: s.series_memo.insert(episode.series_id@, genres),
        pending: Pending::Idle,
        ..s
    }
}

/// The state after a movie was appended with `genres`, which are remembered
/// for its listing.
pub open spec fn settled_movie(
    s: Progress,
    movie: Movie,
    playhead: u32,
    watched_at: String,
    genres: Seq<Seq<char>>,
) -> Progress {
    Progress {
        records: s.records.push(movie_record(s.records.len(), movie, playhead, watched_at, genres)),
        listing_memo: s.listing_memo.insert(movie.movie_listing_id@, genres),
        pending: Pending::Idle,
        ..s
    }
}

/// `s` waiting for `pending`.
pub open spec fn waiting(s: Progress, pending: Pending) -> Progress {
    Progress { pending, ..s }
}

/// A step that asks for `request` and has nothing to report.
pub open spec fn quiet(request: Request) -> Step {
    Step { request, notice: Notice::Nothing }
}

/// What happens to resolved content: anything but an episode or a movie is
/// skipped; a title whose series or listing is remembered is appended with the
/// remembered genres; an episode that carries categories is appended with the
/// genres resolved from them; otherwise the categories are asked for.
pub open spec fn classified(s: Progress, content: Content, playhead: u32, watched_at: String) -> (
    Progress,
    Step,
) {
    match content {
        Content::Episode(episode) => {
            if s.series_memo.contains_key(episode.series_id@) {
                (
                    settled_episode(
                        s,
                        episode,
                        playhead,
                        watched_at,
                        s.series_memo[episode.series_id@],
                    ),
                    quiet(Request::NextEntry),
                )
            } else if episode.categories@.len() > 0 {
                (
                    settled_episode(
                        s,
                        episode,
                        playhead,
                        watched_at,
                        resolved_genres(
                            texts(episode.categories@),
                            Seq::<CategoryLabel>::empty(),
                            s.titles,
                        ),
                    ),
                    quiet(Request::NextEntry),
                )
            } else {
                (
                    waiting(s, Pending::SeriesCategories { episode, playhead, watched_at }),
                    quiet(Request::SeriesCategories(episode.series_id)),
                )
            }
        },
        Content::Movie(movie) => {
            if s.listing_memo.contains_key(movie.movie_listing_id@) {
                (
                    settled_movie(
                        s,
                        movie,
                        playhead,
                        watched_at,
                        s.listing_memo[movie.movie_listing_id@],
                    ),
                    quiet(Request::NextEntry),
                )
            } else {
                (
                    waiting(s, Pending::ListingCategories { movie, playhead, watched_at }),
                    quiet(Request::ListingCategories(movie.movie_listing_id)),
                )
            }
        },
        Content::Other => (waiting(s, Pending::Idle), quiet(Request::NextEntry)),
    }
}

/// The request that `pending` waits for.
pub open spec fn awaited(pending: Pending) -> Request {
    match pending {
        Pending::Idle => Request::NextEntry,
        Pending::EntryLookup { entry } => Request::Lookup(entry.id),
        Pending::ParentLookup { entry, entry_error } => Request::Lookup(entry.parent_id),
        Pending::SeriesCategories { episode, playhead, watched_at } => Request::SeriesCategories(
            episode.series_id,
        ),
        Pending::SeriesLocalized { episode, playhead, watched_at } => Request::SeriesLocalized(
            episode.series_id,
        ),
        Pending::ListingCategories { movie, playhead, watched_at } => Request::ListingCategories(
            movie.movie_listing_id,
        ),
        Pending::ListingLocalized { movie, playhead, watched_at } => Request::ListingLocalized(
            movie.movie_listing_id,
        ),
        Pending::Finished => Request::Stop,
    }
}

/// The categories that a reply delivered; none when it failed.
pub open spec fn delivered(result: Result<Vec<String>, String>) -> Seq<Seq<char>> {
    match result {
        Ok(categories) => texts(categories@),
        Err(_) => Seq::<Seq<char>>::empty(),
    }
}

/// The localized categories that a reply delivered; none when it failed.
pub open spec fn delivered_localized(result: Result<Vec<LocalizedCategory>, String>) -> Seq<
    CategoryLabel,
> {
    match result {
        Ok(categories) => category_labels(categories@),
        Err(_) => Seq::<CategoryLabel>::empty(),
    }
}

/// The transition of the pipeline: the state and the step that follow when
/// `reply` arrives in state `s`. A reply that does not answer the awaited
/// request changes nothing and has the request repeated.
pub open spec fn advance(s: Progress, reply: Reply) -> (Progress, Step) {
    match (s.pending, reply) {
        (Pending::Idle, Reply::Entry(entry)) => {
            if beyond(s.horizon, entry.played_at) {
                (waiting(s, Pending::Finished), quiet(Request::Stop))
            } else {
                match entry.panel {
                    Some(content) => classified(s, content, entry.playhead, entry.watched_at),
                    None => (
                        waiting(s, Pending::EntryLookup { entry }),
                        quiet(Request::Lookup(entry.id)),
                    ),
                }
            }
        },
        (Pending::EntryLookup { entry }, Reply::Content(Ok(content))) => classified(
            waiting(s, Pending::Idle),
            content,
            entry.playhead,
            entry.watched_at,
        ),
        (Pending::EntryLookup { entry }, Reply::Content(Err(error))) => {
            if entry.parent_id@ != entry.id@ {
                (
                    waiting(s, Pending::ParentLookup { entry, entry_error: error }),
                    quiet(Request::Lookup(entry.parent_id)),
                )
            } else {
                (
                    waiting(s, Pending::Idle),
                    Step {
                        request: Request::NextEntry,
                        notice: Notice::Unresolved {
                            entry_id: entry.id,
                            parent_type: entry.parent_type,
                            parent_id: entry.parent_id,
                            entry_error: error,
                            parent_error: None,
                        },
                    },
                )
            }
        },
        (Pending::ParentLookup { entry, entry_error }, Reply::Content(Ok(content))) => classified(
            waiting(s, Pending::Idle),
            content,
            entry.playhead,
            entry.watched_at,
        ),
        (Pending::ParentLookup { entry, entry_error }, Reply::Content(Err(error))) => (
            waiting(s, Pending::Idle),
            Step {
                request: Request::NextEntry,
                notice: Notice::Unresolved {
                    entry_id: entry.id,
                    parent_type: entry.parent_type,
                    parent_id: entry.parent_id,
                    entry_error,
                    parent_error: Some(error),
                },
            },
        ),
        (Pending::SeriesCategories { episode, playhead, watched_at }, Reply::Categories(result)) => {
            let notice = match result {
                Ok(_) => Notice::Nothing,
                Err(error) => Notice::SeriesUnavailable { series_id: episode.series_id, error },
            };
            if delivered(result).len() > 0 {
                (
                    settled_episode(
                        s,
                        episode,
                        playhead,
                        watched_at,
                        resolved_genres(delivered(result), Seq::<CategoryLabel>::empty(), s.titles),
                    ),
                    Step { request: Request::NextEntry, notice },
                )
            } else {
                (
                    waiting(s, Pending::SeriesLocalized { episode, playhead, watched_at }),
                    Step { request: Request::SeriesLocalized(episode.series_id), notice },
                )
            }
        },
        (Pending::SeriesLocalized { episode, playhead, watched_at }, Reply::Localized(result)) => (
            settled_episode(
                s,
                episode,
                playhead,
                watched_at,
                resolved_genres(Seq::<Seq<char>>::empty(), delivered_localized(result), s.titles),
            ),
            Step {
                request: Request::NextEntry,
                notice: match result {
                    Ok(_) => Notice::Nothing,
                    Err(error) => Notice::SeriesCategoriesUnavailable {
                        series_id: episode.series_id,
                        error,
                    },
                },
            },
        ),
        (
            Pending::ListingCategories { movie, playhead, watched_at },
            Reply::Categories(Ok(categories)),
        ) => {
            if categories@.len() > 0 {
                (
                    settled_movie(
                        s,
                        movie,
                        playhead,
                        watched_at,
                        resolved_genres(
                            texts(categories@),
                            Seq::<CategoryLabel>::empty(),
                            s.titles,
                        ),
                    ),
                    quiet(Request::NextEntry),
                )
            } else {
                (
                    waiting(s, Pending::ListingLocalized { movie, playhead, watched_at }),
                    quiet(Request::ListingLocalized(movie.movie_listing_id)),
                )
            }
        },
        (
            Pending::ListingCategories { movie, playhead, watched_at },
            Reply::Categories(Err(error)),
        ) => (
            settled_movie(s, movie, playhead, watched_at, Seq::<Seq<char>>::empty()),
            Step {
                request: Request::NextEntry,
                notice: Notice::ListingUnavailable { listing_id: movie.movie_listing_id, error },
            },
        ),
        (Pending::ListingLocalized { movie, playhead, watched_at }, Reply::Localized(result)) => (
            settled_movie(
                s,
                movie,
                playhead,
                watched_at,
                resolved_genres(Seq::<Seq<char>>::empty(), delivered_localized(result), s.titles),
            ),
            Step {
                request: Request::NextEntry,
                notice: match result {
                    Ok(_) => Notice::Nothing,
                    Err(error) => Notice::ListingCategoriesUnavailable {
                        listing_id: movie.movie_listing_id,
                        error,
                    },
                },
            },
        ),
        _ => (s, quiet(awaited(s.pending))),
    }
}

/// Views of the lists of a genre table.
pub open spec fn memo_view(m: Map<Seq<char>, Vec<String>>) -> GenreMemo {
    m.map_values(|v: Vec<String>| texts(v@))
}

/// The state of a pipeline before its first entry.
pub open spec fn initial(titles: Map<Seq<char>, Seq<char>>, horizon: Option<Horizon>) -> Progress {
    Progress {
        records: Seq::<HistoryRecord>::empty(),
        series_memo: Map::<Seq<char>, Seq<Seq<char>>>::empty(),
        listing_memo: Map::<Seq<char>, Seq<Seq<char>>>::empty(),
        titles,
        horizon,
        pending: Pending::Idle,
    }
}

/// Reinterprets a signed millisecond count as unsigned.
pub fn to_unsigned_ms(d: i64) -> (r: u64)
    ensures
        r == unsigned_ms(d),
{
    if d >= 0 {
        d as u64
    } else {
        u64::MAX - ((-(d + 1)) as u64)
    }
}

/// The label of the record at position `index`.
pub fn label(index: usize) -> (r: String)
    ensures
        r@ == item_label(index as nat),
{
    proof {
        reveal_strlit("item-");
        assert("item-"@ =~= seq!['i', 't', 'e', 'm', '-']);
    }
    String::from_str("item-").concat(decimal_string(index).as_str())
}

/// The state machine that builds one history response.
pub struct Pipeline {
    history: Vec<HistoryEntry>,
    series_genres: StringHashMap<Vec<String>>,
    listing_genres: StringHashMap<Vec<String>>,
    taxonomy: CategoryTaxonomy,
    horizon: Option<Horizon>,
    pending: Pending,
}

impl View for Pipeline {
    type V = Progress;

    closed spec fn view(&self) -> Progress {
        Progress {
            records: records(self.history@),
            series_memo: memo_view(self.series_genres@),
            listing_memo: memo_view(self.listing_genres@),
            titles: self.taxonomy.titles(),
            horizon: self.horizon,
            pending: self.pending,
        }
    }
}

impl Pipeline {
    /// A pipeline that has seen nothing yet. Without a horizon every entry of
    /// the stream is scanned.
    pub fn new(taxonomy: CategoryTaxonomy, horizon: Option<Horizon>) -> (r: Self)
        ensures
            r@ == initial(taxonomy.titles(), horizon),
    {
        let r = Pipeline {
            history: Vec::new(),
            series_genres: StringHashMap::new(),
            listing_genres: StringHashMap::new(),
            taxonomy,
            horizon,
            pending: Pending::Idle,
        };
        proof {
            assert(r@.records =~= Seq::<HistoryRecord>::empty());
            assert(r@.series_memo =~= Map::<Seq<char>, Seq<Seq<char>>>::empty());
            assert(r@.listing_memo =~= Map::<Seq<char>, Seq<Seq<char>>>::empty());
        }
        r
    }

    /// The number of records built so far.
    pub fn len(&self) -> (r: usize)
        ensures
            r == self@.records.len(),
    {
        self.history.len()
    }

    /// The request that the pipeline waits for.
    pub fn awaiting(&self) -> (r: Request)
        ensures
            r == awaited(self@.pending),
    {
        match &self.pending {
            Pending::Idle => Request::NextEntry,
            Pending::EntryLookup { entry } => Request::Lookup(entry.id.clone()),
            Pending::ParentLookup { entry, entry_error } => Request::Lookup(
                entry.parent_id.clone(),
            ),
            Pending::SeriesCategories { episode, playhead, watched_at } => {
                Request::SeriesCategories(episode.series_id.clone())
            },
            Pending::SeriesLocalized { episode, playhead, watched_at } => {
                Request::SeriesLocalized(episode.series_id.clone())
            },
            Pending::ListingCategories { movie, playhead, watched_at } => {
                Request::ListingCategories(movie.movie_listing_id.clone())
            },
            Pending::ListingLocalized { movie, playhead, watched_at } => {
                Request::ListingLocalized(movie.movie_listing_id.clone())
            },
            Pending::Finished => Request::Stop,
        }
    }

    /// The finished list of records, in stream order.
    pub fn finish(self) -> (r: Vec<HistoryEntry>)
        ensures
            records(r@) == self@.records,
    {
        self.history
    }

    /// Whether an entry played at `played_at` lies beyond the horizon.
    fn is_beyond(&self, played_at: i64) -> (r: bool)
        ensures
            r == beyond(self@.horizon, played_at),
    {
        match &self.horizon {
            Some(h) => {
                let age: i128 = h.now as i128 - played_at as i128;
                age > h.max_age as i128
            },
            None => false,
        }
    }

    /// Appends the record of `episode`; with `remember`, its genres are stored
    /// for the series.
    fn settle_episode(
        &mut self,
        episode: Episode,
        playhead: u32,
        watched_at: String,
        genres: Vec<String>,
        remember: bool,
    )
        requires
            !remember ==> old(self)@.series_memo.contains_key(episode.series_id@) && old(
                self,
            )@.series_memo[episode.series_id@] == texts(genres@),
        ensures
            final(self)@ == settled_episode(
                old(self)@,
                episode,
                playhead,
                watched_at,
                texts(genres@),
            ),
    {
        let ghost before = self@;
        let index = self.history.len();
        if remember {
            self.series_genres.insert(episode.series_id.clone(), clone_texts(&genres));
        }
        let entry = HistoryEntry {
            id: label(index),
            media_type: String::from_str("episode"),
            content_id: Some(episode.id),
            series_id: Some(episode.series_id),
            movie_listing_id: None,
            title: episode.series_title,
            episode_title: Some(episode.title),
            watched_at: Some(watched_at),
            playhead: Some(playhead),
            duration_ms: Some(to_unsigned_ms(episode.duration_ms)),
            images: episode.images,
            genres,
        };
        self.history.push(entry);
        self.pending = Pending::Idle;
        proof {
            let after = settled_episode(before, episode, playhead, watched_at, texts(genres@));
            assert(self@.records =~= after.records);
            assert(self@.series_memo =~= after.series_memo);
        }
    }

    /// Appends the record of `movie`; with `remember`, its genres are stored
    /// for the listing.
    fn settle_movie(
        &mut self,
        movie: Movie,
        playhead: u32,
        watched_at: String,
        genres: Vec<String>,
        remember: bool,
    )
        requires
            !remember ==> old(self)@.listing_memo.contains_key(movie.movie_listing_id@) && old(
                self,
            )@.listing_memo[movie.movie_listing_id@] == texts(genres@),
        ensures
            final(self)@ == settled_movie(old(self)@, movie, playhead, watched_at, texts(genres@)),
    {
        let ghost before = self@;
        let index = self.history.len();
        if remember {
            self.listing_genres.insert(movie.movie_listing_id.clone(), clone_texts(&genres));
        }
        let entry = HistoryEntry {
            id: label(index),
            media_type: String::from_str("movie"),
            content_id: Some(movie.id),
            series_id: None,
            movie_listing_id: Some(movie.movie_listing_id),
            title: movie.title,
            episode_title: None,
            watched_at: Some(watched_at),
            playhead: Some(playhead),
            duration_ms: Some(to_unsigned_ms(movie.duration_ms)),
            images: movie.images,
            genres,
        };
        self.history.push(entry);
        self.pending = Pending::Idle;
        proof {
            let after = settled_movie(before, movie, playhead, watched_at, texts(genres@));
            assert(self@.records =~= after.records);
            assert(self@.listing_memo =~= after.listing_memo);
        }
    }

    /// Handles resolved content.
    fn classify(&mut self, content: Content, playhead: u32, watched_at: String) -> (r: Step)
        ensures
            (final(self)@, r) == classified(old(self)@, content, playhead, watched_at),
    {
        match content {
            Content::Episode(episode) => {
                let cached = match self.series_genres.get(episode.series_id.as_str()) {
                    Some(genres) => Some(clone_texts(genres)),
                    None => None,
                };
                match cached {
                    Some(genres) => {
                        self.settle_episode(episode, playhead, watched_at, genres, false);
                        Step { request: Request::NextEntry, notice: Notice::Nothing }
                    },
                    None => {
                        if episode.categories.len() > 0 {
                            let genres = resolve_genres(
                                clone_texts(&episode.categories),
                                Vec::new(),
                                &self.taxonomy,
                            );
                            proof {
                                assert(category_labels(Seq::<LocalizedCategory>::empty())
                                    =~= Seq::<CategoryLabel>::empty());
                            }
                            self.settle_episode(episode, playhead, watched_at, genres, true);
                            Step { request: Request::NextEntry, notice: Notice::Nothing }
                        } else {
                            let request = Request::SeriesCategories(episode.series_id.clone());
                            self.pending = Pending::SeriesCategories {
                                episode,
                                playhead,
                                watched_at,
                            };
                            Step { request, notice: Notice::Nothing }
                        }
                    },
                }
            },
            Content::Movie(movie) => {
                let cached = match self.listing_genres.get(movie.movie_listing_id.as_str()) {
                    Some(genres) => Some(clone_texts(genres)),
                    None => None,
                };
                match cached {
                    Some(genres) => {
                        self.settle_movie(movie, playhead, watched_at, genres, false);
                        Step { request: Request::NextEntry, notice: Notice::Nothing }
                    },
                    None => {
                        let request = Request::ListingCategories(movie.movie_listing_id.clone());
                        self.pending = Pending::ListingCategories { movie, playhead, watched_at };
                        Step { request, notice: Notice::Nothing }
                    },
                }
            },
            Content::Other => {
                self.pending = Pending::Idle;
                Step { request: Request::NextEntry, notice: Notice::Nothing }
            },
        }
    }

    /// Takes the reply to the request that the previous step asked for (the
    /// first reply answers [`Request::NextEntry`]) and says what to do next.
    pub fn step(&mut self, reply: Reply) -> (r: Step)
        ensures
            (final(self)@, r) == advance(old(self)@, reply),
    {
        let mut pending = Pending::Idle;
        core::mem::swap(&mut self.pending, &mut pending);
        match (pending, reply) {
            (Pending::Idle, Reply::Entry(entry)) => {
                if self.is_beyond(entry.played_at) {
                    self.pending = Pending::Finished;
                    Step { request: Request::Stop, notice: Notice::Nothing }
                } else {
                    let RawEntry { id, parent_id, parent_type, playhead, played_at, watched_at, panel } =
                        entry;
                    match panel {
                        Some(content) => self.classify(content, playhead, watched_at),
                        None => {
                            let request = Request::Lookup(id.clone());
                            self.pending = Pending::EntryLookup {
                                entry: RawEntry {
                                    id,
                                    parent_id,
                                    parent_type,
                                    playhead,
                                    played_at,
                                    watched_at,
                                    panel: None,
                                },
                            };
                            Step { request, notice: Notice::Nothing }
                        },
                    }
                }
            },
            (Pending::EntryLookup { entry }, Reply::Content(Ok(content))) => {
                self.classify(content, entry.playhead, entry.watched_at)
            },
            (Pending::EntryLookup { entry }, Reply::Content(Err(error))) => {
                if entry.parent_id != entry.id {
                    let request = Request::Lookup(entry.parent_id.clone());
                    self.pending = Pending::ParentLookup { entry, entry_error: error };
                    Step { request, notice: Notice::Nothing }
                } else {
                    Step {
                        request: Request::NextEntry,
                        notice: Notice::Unresolved {
                            entry_id: entry.id,
                            parent_type: entry.parent_type,
                            parent_id: entry.parent_id,
                            entry_error: error,
                            parent_error: None,
                        },
                    }
                }
            },
            (Pending::ParentLookup { entry, entry_error }, Reply::Content(Ok(content))) => {
                self.classify(content, entry.playhead, entry.watched_at)
            },
            (Pending::ParentLookup { entry, entry_error }, Reply::Content(Err(error))) => {
                Step {
                    request: Request::NextEntry,
                    notice: Notice::Unresolved {
                        entry_id: entry.id,
                        parent_type: entry.parent_type,
                        parent_id: entry.parent_id,
                        entry_error,
                        parent_error: Some(error),
                    },
                }
            },
            (
                Pending::SeriesCategories { episode, playhead, watched_at },
                Reply::Categories(result),
            ) => {
                let (raw, notice) = match result {
                    Ok(categories) => (categories, Notice::Nothing),
                    Err(error) => (
                        Vec::new(),
                        Notice::SeriesUnavailable { series_id: episode.series_id.clone(), error },
                    ),
                };
                proof {
                    assert(texts(raw@) =~= delivered(result));
                    assert(category_labels(Seq::<LocalizedCategory>::empty())
                        =~= Seq::<CategoryLabel>::empty());
                }
                if raw.len() > 0 {
                    let genres = resolve_genres(raw, Vec::new(), &self.taxonomy);
                    self.settle_episode(episode, playhead, watched_at, genres, true);
                    Step { request: Request::NextEntry, notice }
                } else {
                    let request = Request::SeriesLocalized(episode.series_id.clone());
                    self.pending = Pending::SeriesLocalized { episode, playhead, watched_at };
                    Step { request, notice }
                }
            },
            (
                Pending::SeriesLocalized { episode, playhead, watched_at },
                Reply::Localized(result),
            ) => {
                let (localized, notice) = match result {
                    Ok(categories) => (categories, Notice::Nothing),
                    Err(error) => (
                        Vec::new(),
                        Notice::SeriesCategoriesUnavailable {
                            series_id: episode.series_id.clone(),
                            error,
                        },
                    ),
                };
                proof {
                    assert(category_labels(localized@) =~= delivered_localized(result));
                    assert(texts(Seq::<String>::empty()) =~= Seq::<Seq<char>>::empty());
                }
                let genres = resolve_genres(Vec::new(), localized, &self.taxonomy);
                self.settle_episode(episode, playhead, watched_at, genres, true);
                Step { request: Request::NextEntry, notice }
            },
            (
                Pending::ListingCategories { movie, playhead, watched_at },
                Reply::Categories(Ok(categories)),
            ) => {
                if categories.len() > 0 {
                    proof {
                        assert(category_labels(Seq::<LocalizedCategory>::empty())
                            =~= Seq::<CategoryLabel>::empty());
                    }
                    let genres = resolve_genres(categories, Vec::new(), &self.taxonomy);
                    self.settle_movie(movie, playhead, watched_at, genres, true);
                    Step { request: Request::NextEntry, notice: Notice::Nothing }
                } else {
                    let request = Request::ListingLocalized(movie.movie_listing_id.clone());
                    self.pending = Pending::ListingLocalized { movie, playhead, watched_at };
                    Step { request, notice: Notice::Nothing }
                }
            },
            (
                Pending::ListingCategories { movie, playhead, watched_at },
                Reply::Categories(Err(error)),
            ) => {
                let notice = Notice::ListingUnavailable {
                    listing_id: movie.movie_listing_id.clone(),
                    error,
                };
                proof {
                    assert(texts(Seq::<String>::empty()) =~= Seq::<Seq<char>>::empty());
                }
                self.settle_movie(movie, playhead, watched_at, Vec::new(), true);
                Step { request: Request::NextEntry, notice }
            },
            (
                Pending::ListingLocalized { movie, playhead, watched_at },
                Reply::Localized(result),
            ) => {
                let (localized, notice) = match result {
                    Ok(categories) => (categories, Notice::Nothing),
                    Err(error) => (
                        Vec::new(),
                        Notice::ListingCategoriesUnavailable {
                            listing_id: movie.movie_listing_id.clone(),
                            error,
                        },
                    ),
                };
                proof {
                    assert(category_labels(localized@) =~= delivered_localized(result));
                    assert(texts(Seq::<String>::empty()) =~= Seq::<Seq<char>>::empty());
                }
                let genres = resolve_genres(Vec::new(), localized, &self.taxonomy);
                self.settle_movie(movie, playhead, watched_at, genres, true);
                Step { request: Request::NextEntry, notice }
            },
            (other, _) => {
                self.pending = other;
                let request = self.awaiting();
                Step { request, notice: Notice::Nothing }
            },
        }
    }
}

/// A title of a remembered series is appended at once with the remembered
/// genres: nothing is asked of the upstream service, and the memory stays as
/// it is.
pub proof fn lemma_remembered_series_asks_nothing(
    s: Progress,
    episode: Episode,
    playhead: u32,
    watched_at: String,
)
    requires
        s.series_memo.contains_key(episode.series_id@),
    ensures
        ({
            let (t, step) = classified(s, Content::Episode(episode), playhead, watched_at);
            &&& step == quiet(Request::NextEntry)
            &&& t.series_memo == s.series_memo
            &&& t.records == s.records.push(
                episode_record(
                    s.records.len(),
                    episode,
                    playhead,
                    watched_at,
                    s.series_memo[episode.series_id@],
                ),
            )
        }),
{
    let (t, step) = classified(s, Content::Episode(episode), playhead, watched_at);
    assert(t.series_memo =~= s.series_memo);
}

/// A title of a remembered movie listing is appended at once with the
/// remembered genres, and nothing is asked of the upstream service.
pub proof fn lemma_remembered_listing_asks_nothing(
    s: Progress,
    movie: Movie,
    playhead: u32,
    watched_at: String,
)
    requires
        s.listing_memo.contains_key(movie.movie_listing_id@),
    ensures
        ({
            let (t, step) = classified(s, Content::Movie(movie), playhead, watched_at);
            &&& step == quiet(Request::NextEntry)
            &&& t.listing_memo == s.listing_memo
            &&& t.records == s.records.push(
                movie_record(
                    s.records.len(),
                    movie,
                    playhead,
                    watched_at,
                    s.listing_memo[movie.movie_listing_id@],
                ),
            )
        }),
{
    let (t, step) = classified(s, Content::Movie(movie), playhead, watched_at);
    assert(t.listing_memo =~= s.listing_memo);
}

/// What content handling leaves behind: records are only appended, at most
/// one at a time; what was remembered stays remembered, unchanged; and the
/// series or listing of an appended record is remembered afterwards.
pub open spec fn extends(s: Progress, t: Progress) -> bool {
    &&& t.titles == s.titles
    &&& t.horizon == s.horizon
    &&& t.records == s.records || (t.records.len() == s.records.len() + 1 && t.records.drop_last()
        == s.records)
    &&& forall|k: Seq<char>| #[trigger]
        s.series_memo.contains_key(k) ==> t.series_memo.contains_key(k) && t.series_memo[k]
            == s.series_memo[k]
    &&& forall|k: Seq<char>| #[trigger]
        s.listing_memo.contains_key(k) ==> t.listing_memo.contains_key(k) && t.listing_memo[k]
            == s.listing_memo[k]
    &&& t.records.len() > s.records.len() ==> match t.records.last().series_id {
        Some(k) => t.series_memo.contains_key(k) && t.series_memo[k] == t.records.last().genres,
        None => true,
    }
    &&& t.records.len() > s.records.len() ==> match t.records.last().movie_listing_id {
        Some(k) => t.listing_memo.contains_key(k) && t.listing_memo[k] == t.records.last().genres,
        None => true,
    }
}

proof fn lemma_settled_episode_extends(
    s: Progress,
    episode: Episode,
    playhead: u32,
    watched_at: String,
    genres: Seq<Seq<char>>,
)
    requires
        s.series_memo.contains_key(episode.series_id@) ==> genres
            == s.series_memo[episode.series_id@],
    ensures
        extends(s, settled_episode(s, episode, playhead, watched_at, genres)),
{
    let t = settled_episode(s, episode, playhead, watched_at, genres);
    assert(t.records.drop_last() =~= s.records);
}

proof fn lemma_settled_movie_extends(
    s: Progress,
    movie: Movie,
    playhead: u32,
    watched_at: String,
    genres: Seq<Seq<char>>,
)
    requires
        s.listing_memo.contains_key(movie.movie_listing_id@) ==> genres
            == s.listing_memo[movie.movie_listing_id@],
    ensures
        extends(s, settled_movie(s, movie, playhead, watched_at, genres)),
{
    let t = settled_movie(s, movie, playhead, watched_at, genres);
    assert(t.records.drop_last() =~= s.records);
}

/// Whether `pending` waits for genres of a series or listing that is not
/// remembered yet. The pipeline only ever waits in this way.
pub open spec fn waits_for_new(s: Progress) -> bool {
    match s.pending {
        Pending::SeriesCategories { episode, playhead, watched_at } => !s.series_memo.contains_key(
            episode.series_id@,
        ),
        Pending::SeriesLocalized { episode, playhead, watched_at } => !s.series_memo.contains_key(
            episode.series_id@,
        ),
        Pending::ListingCategories { movie, playhead, watched_at } => !s.listing_memo.contains_key(
            movie.movie_listing_id@,
        ),
        Pending::ListingLocalized { movie, playhead, watched_at } => !s.listing_memo.contains_key(
            movie.movie_listing_id@,
        ),
        _ => true,
    }
}

/// Every transition keeps the records and the remembered genres, appends at
/// most one record, and remembers the genres of what it appends. Together with
/// the two laws above: within one pipeline the genres of a series or listing
/// are asked for at most until its first record is appended, never again.
pub proof fn lemma_advance_extends(s: Progress, reply: Reply)
    requires
        waits_for_new(s),
    ensures
        extends(s, advance(s, reply).0),
        waits_for_new(advance(s, reply).0),
{
    let t = advance(s, reply).0;
    match (s.pending, reply) {
        (Pending::Idle, Reply::Entry(entry)) => {
            if !beyond(s.horizon, entry.played_at) {
                match entry.panel {
                    Some(content) => lemma_classified_extends(
                        s,
                        content,
                        entry.playhead,
                        entry.watched_at,
                    ),
                    None => {},
                }
            }
        },
        (Pending::EntryLookup { entry }, Reply::Content(Ok(content))) => {
            lemma_classified_extends(
                waiting(s, Pending::Idle),
                content,
                entry.playhead,
                entry.watched_at,
            );
        },
        (Pending::ParentLookup { entry, entry_error }, Reply::Content(Ok(content))) => {
            lemma_classified_extends(
                waiting(s, Pending::Idle),
                content,
                entry.playhead,
                entry.watched_at,
            );
        },
        (Pending::SeriesCategories { episode, playhead, watched_at }, Reply::Categories(result)) => {
            if delivered(result).len() > 0 {
                lemma_settled_episode_extends(
                    s,
                    episode,
                    playhead,
                    watched_at,
                    resolved_genres(delivered(result), Seq::<CategoryLabel>::empty(), s.titles),
                );
            }
        },
        (Pending::SeriesLocalized { episode, playhead, watched_at }, Reply::Localized(result)) => {
            lemma_settled_episode_extends(
                s,
                episode,
                playhead,
                watched_at,
                resolved_genres(Seq::<Seq<char>>::empty(), delivered_localized(result), s.titles),
            );
        },
        (
            Pending::ListingCategories { movie, playhead, watched_at },
            Reply::Categories(Ok(categories)),
        ) => {
            if categories@.len() > 0 {
                lemma_settled_movie_extends(
                    s,
                    movie,
                    playhead,
                    watched_at,
                    resolved_genres(texts(categories@), Seq::<CategoryLabel>::empty(), s.titles),
                );
            }
        },
        (
            Pending::ListingCategories { movie, playhead, watched_at },
            Reply::Categories(Err(error)),
        ) => {
            lemma_settled_movie_extends(
                s,
                movie,
                playhead,
                watched_at,
                Seq::<Seq<char>>::empty(),
            );
        },
        (Pending::ListingLocalized { movie, playhead, watched_at }, Reply::Localized(result)) => {
            lemma_settled_movie_extends(
                s,
                movie,
                playhead,
                watched_at,
                resolved_genres(Seq::<Seq<char>>::empty(), delivered_localized(result), s.titles),
            );
        },
        _ => {},
    }
}

proof fn lemma_classified_extends(s: Progress, content: Content, playhead: u32, watched_at: String)
    ensures
        extends(s, classified(s, content, playhead, watched_at).0),
        waits_for_new(classified(s, content, playhead, watched_at).0),
{
    match content {
        Content::Episode(episode) => {
            if s.series_memo.contains_key(episode.series_id@) {
                lemma_settled_episode_extends(
                    s,
                    episode,
                    playhead,
                    watched_at,
                    s.series_memo[episode.series_id@],
                );
            } else if episode.categories@.len() > 0 {
                lemma_settled_episode_extends(
                    s,
                    episode,
                    playhead,
                    watched_at,
                    resolved_genres(
                        texts(episode.categories@),
                        Seq::<CategoryLabel>::empty(),
                        s.titles,
                    ),
                );
            }
        },
        Content::Movie(movie) => {
            if s.listing_memo.contains_key(movie.movie_listing_id@) {
                lemma_settled_movie_extends(
                    s,
                    movie,
                    playhead,
                    watched_at,
                    s.listing_memo[movie.movie_listing_id@],
                );
            }
        },
        Content::Other => {},
    }
}

/// An entry without content whose lookups all fail is dropped: once the
/// failures are in, the pipeline is back where it was before the entry, asks
/// for the next one, and reports what failed. The parent is looked up only
/// when its identifier differs from the entry's own.
pub proof fn lemma_unresolvable_entry_is_dropped(
    s: Progress,
    entry: RawEntry,
    entry_error: String,
    parent_error: String,
)
    requires
        s.pending is Idle,
        entry.panel is None,
        !beyond(s.horizon, entry.played_at),
    ensures
        ({
            let (a, first) = advance(s, Reply::Entry(entry));
            let (b, second) = advance(a, Reply::Content(Err(entry_error)));
            let (c, third) = advance(b, Reply::Content(Err(parent_error)));
            &&& first == quiet(Request::Lookup(entry.id))
            &&& entry.parent_id@ == entry.id@ ==> b == s && second.request == Request::NextEntry
                && second.notice is Unresolved
            &&& entry.parent_id@ != entry.id@ ==> second == quiet(Request::Lookup(entry.parent_id))
                && c == s && third.request == Request::NextEntry && third.notice is Unresolved
        }),
{
}

} // verus!
