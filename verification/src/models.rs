//! Plain data carried between the service's components.

use vstd::prelude::*;

verus! {

/// Views of a list of strings, element by element.
pub open spec fn texts(v: Seq<String>) -> Seq<Seq<char>> {
    v.map_values(|s: String| s@)
}

/// View of an optional string.
pub open spec fn opt_text(o: Option<String>) -> Option<Seq<char>> {
    match o {
        Some(s) => Some(s@),
        None => None,
    }
}

/// Copies an optional string.
pub(crate) fn clone_opt_text(o: &Option<String>) -> (r: Option<String>)
    ensures
        opt_text(r) == opt_text(*o),
{
    match o {
        Some(s) => Some(s.clone()),
        None => None,
    }
}

/// Copies a list of strings, keeping order and contents.
pub(crate) fn clone_texts(v: &Vec<String>) -> (r: Vec<String>)
    ensures
        texts(r@) == texts(v@),
{
    let mut out: Vec<String> = Vec::new();
    let mut i: usize = 0;
    while i < v.len()
        invariant
            i <= v.len(),
            out.len() == i,
            forall|j: int| 0 <= j < i ==> out[j]@ == v[j]@,
        decreases v.len() - i,
    {
        out.push(v[i].clone());
        i += 1;
    }
    proof {
        assert(texts(out@) =~= texts(v@));
    }
    out
}

/// One artwork rendition of a title.
#[derive(Debug)]
pub struct Image {
    pub source: String,
    pub width: u32,
}

/// Mathematical content of an [`Image`].
pub struct ImageView {
    pub source: Seq<char>,
    pub width: u32,
}

impl View for Image {
    type V = ImageView;

    open spec fn view(&self) -> ImageView {
        ImageView { source: self.source@, width: self.width }
    }
}

impl Clone for Image {
    fn clone(&self) -> (r: Self)
        ensures
            r@ == self@,
    {
        Image { source: self.source.clone(), width: self.width }
    }
}

/// Views of a list of images, element by element.
pub open spec fn pictures(v: Seq<Image>) -> Seq<ImageView> {
    v.map_values(|i: Image| i@)
}

/// Copies a list of images, keeping order and contents.
pub(crate) fn clone_images(v: &Vec<Image>) -> (r: Vec<Image>)
    ensures
        pictures(r@) == pictures(v@),
{
    let mut out: Vec<Image> = Vec::new();
    let mut i: usize = 0;
    while i < v.len()
        invariant
            i <= v.len(),
            out.len() == i,
            forall|j: int| 0 <= j < i ==> out[j]@ == v[j]@,
        decreases v.len() - i,
    {
        out.push(v[i].clone());
        i += 1;
    }
    proof {
        assert(pictures(out@) =~= pictures(v@));
    }
    out
}

/// Whether `i` is the position of the image of `images` that is shown when
/// only one can be: the widest, and of several equally wide ones the last.
pub open spec fn is_widest(images: Seq<ImageView>, i: int) -> bool {
    &&& 0 <= i < images.len()
    &&& forall|j: int| 0 <= j < i ==> (#[trigger] images[j]).width <= images[i].width
    &&& forall|j: int| i < j < images.len() ==> (#[trigger] images[j]).width < images[i].width
}

/// The source of the widest image, of several equally wide ones the last;
/// nothing when there is no image.
pub fn widest_source(images: &Vec<Image>) -> (r: Option<String>)
    ensures
        match r {
            Some(source) => exists|i: int| #[trigger]
                is_widest(pictures(images@), i) && source@ == pictures(images@)[i].source,
            None => images@.len() == 0,
        },
{
    if images.len() == 0 {
        return None;
    }
    let mut best: usize = 0;
    let mut i: usize = 1;
    while i < images.len()
        invariant
            1 <= i <= images.len(),
            best < i,
            forall|j: int| 0 <= j < best ==> (#[trigger] images@[j]).width <= images@[best as int].width,
            forall|j: int| best < j < i ==> (#[trigger] images@[j]).width < images@[best as int].width,
        decreases images.len() - i,
    {
        if images[i].width >= images[best].width {
            best = i;
        }
        i += 1;
    }
    proof {
        assert(is_widest(pictures(images@), best as int));
    }
    Some(images[best].source.clone())
}

/// One watched title, ready to be shown.
#[derive(Debug)]
pub struct HistoryEntry {
    pub id: String,
    pub media_type: String,
    pub content_id: Option<String>,
    pub series_id: Option<String>,
    pub movie_listing_id: Option<String>,
    pub title: String,
    pub episode_title: Option<String>,
    pub watched_at: Option<String>,
    pub playhead: Option<u32>,
    pub duration_ms: Option<u64>,
    pub images: Vec<Image>,
    pub genres: Vec<String>,
}

/// Mathematical content of a [`HistoryEntry`].
pub struct HistoryRecord {
    pub id: Seq<char>,
    pub media_type: Seq<char>,
    pub content_id: Option<Seq<char>>,
    pub series_id: Option<Seq<char>>,
    pub movie_listing_id: Option<Seq<char>>,
    pub title: Seq<char>,
    pub episode_title: Option<Seq<char>>,
    pub watched_at: Option<Seq<char>>,
    pub playhead: Option<u32>,
    pub duration_ms: Option<u64>,
    pub images: Seq<ImageView>,
    pub genres: Seq<Seq<char>>,
}

impl View for HistoryEntry {
    type V = HistoryRecord;

    open spec fn view(&self) -> HistoryRecord {
        HistoryRecord {
            id: self.id@,
            media_type: self.media_type@,
            content_id: opt_text(self.content_id),
            series_id: opt_text(self.series_id),
            movie_listing_id: opt_text(self.movie_listing_id),
            title: self.title@,
            episode_title: opt_text(self.episode_title),
            watched_at: opt_text(self.watched_at),
            playhead: self.playhead,
            duration_ms: self.duration_ms,
            images: pictures(self.images@),
            genres: texts(self.genres@),
        }
    }
}

impl Clone for HistoryEntry {
    fn clone(&self) -> (r: Self)
        ensures
            r@ == self@,
    {
        HistoryEntry {
            id: self.id.clone(),
            media_type: self.media_type.clone(),
            content_id: clone_opt_text(&self.content_id),
            series_id: clone_opt_text(&self.series_id),
            movie_listing_id: clone_opt_text(&self.movie_listing_id),
            title: self.title.clone(),
            episode_title: clone_opt_text(&self.episode_title),
            watched_at: clone_opt_text(&self.watched_at),
            playhead: self.playhead,
            duration_ms: self.duration_ms,
            images: clone_images(&self.images),
            genres: clone_texts(&self.genres),
        }
    }
}

impl HistoryEntry {
    /// The image to show when only one can be shown: the widest.
    pub fn thumbnail(&self) -> (r: Option<String>)
        ensures
            match r {
                Some(source) => exists|i: int| #[trigger]
                    is_widest(self@.images, i) && source@ == self@.images[i].source,
                None => self@.images.len() == 0,
            },
    {
        let r = widest_source(&self.images);
        proof {
            assert(self@.images == pictures(self.images@));
            assert(pictures(self.images@).len() == self.images@.len());
        }
        r
    }
}

/// Views of a list of history entries, element by element.
pub open spec fn records(v: Seq<HistoryEntry>) -> Seq<HistoryRecord> {
    v.map_values(|e: HistoryEntry| e@)
}

/// Copies a history list, keeping order and contents.
pub(crate) fn clone_history(v: &Vec<HistoryEntry>) -> (r: Vec<HistoryEntry>)
    ensures
        records(r@) == records(v@),
{
    let mut out: Vec<HistoryEntry> = Vec::new();
    let mut i: usize = 0;
    while i < v.len()
        invariant
            i <= v.len(),
            out.len() == i,
            forall|j: int| 0 <= j < i ==> out[j]@ == v[j]@,
        decreases v.len() - i,
    {
        out.push(v[i].clone());
        i += 1;
    }
    proof {
        assert(records(out@) =~= records(v@));
    }
    out
}

/// Body of a successful history answer.
#[derive(Debug)]
pub struct HistoryResponse {
    pub data: Vec<HistoryEntry>,
}

/// Body of a failed answer.
#[derive(Debug)]
pub struct ErrorResponse {
    pub error: String,
}

/// Body of the liveness answer.
#[derive(Debug)]
pub struct HealthResponse {
    pub status: String,
    pub version: String,
}

/// Row of the flat history listing.
#[derive(Debug)]
pub struct WatchHistoryItem {
    pub id: String,
    pub anime_title: String,
    pub episode_number: String,
    pub episode_name: String,
    pub date_watched: String,
    pub completion_percent: u32,
    pub duration: u32,
    pub thumbnail: Option<String>,
}

/// Flat history listing together with its row count.
#[derive(Debug)]
pub struct WatchHistoryResponse {
    pub data: Vec<WatchHistoryItem>,
    pub total: usize,
}

/// The profile of the viewer that is currently selected.
#[derive(Debug)]
pub struct Profile {
    pub profile_id: String,
    pub username: String,
    pub profile_name: String,
    pub avatar: String,
    pub maturity_rating: String,
    pub is_primary: bool,
}

/// Mathematical content of a [`Profile`].
pub struct ProfileView {
    pub profile_id: Seq<char>,
    pub username: Seq<char>,
    pub profile_name: Seq<char>,
    pub avatar: Seq<char>,
    pub maturity_rating: Seq<char>,
    pub is_primary: bool,
}

impl View for Profile {
    type V = ProfileView;

    open spec fn view(&self) -> ProfileView {
        ProfileView {
            profile_id: self.profile_id@,
            username: self.username@,
            profile_name: self.profile_name@,
            avatar: self.avatar@,
            maturity_rating: self.maturity_rating@,
            is_primary: self.is_primary,
        }
    }
}

impl Clone for Profile {
    fn clone(&self) -> (r: Self)
        ensures
            r@ == self@,
    {
        Profile {
            profile_id: self.profile_id.clone(),
            username: self.username.clone(),
            profile_name: self.profile_name.clone(),
            avatar: self.avatar.clone(),
            maturity_rating: self.maturity_rating.clone(),
            is_primary: self.is_primary,
        }
    }
}

} // verus!
