//! The song and playlist records the engine hands out.
use vstd::prelude::*;

verus! {

/// A text that may be absent, by its characters.
pub open spec fn opt_view(o: Option<String>) -> Option<Seq<char>> {
    match o {
        Some(s) => Some(s@),
        None => None,
    }
}

/// The unit of a length a service gives.
#[derive(PartialEq, Eq, Structural, Clone, Copy, Debug)]
pub enum TimeUnit {
    /// Seconds.
    Seconds,
    /// Milliseconds.
    Milliseconds,
    /// Milliseconds when the number is above 10000, seconds otherwise.
    MillisecondsAbove10000,
    /// Seconds, and never less than 30.
    SecondsAtLeast30,
    /// Milliseconds, and no length at all when that is 10 seconds or less.
    MillisecondsOver10Seconds,
}

/// A song's length as the service wrote it: the number's text and its
/// unit.  Reading the number is floating-point work left to the caller.
pub struct SongLength {
    pub value: String,
    pub unit: TimeUnit,
}

pub struct SongLengthView {
    pub value: Seq<char>,
    pub unit: TimeUnit,
}

impl View for SongLength {
    type V = SongLengthView;

    open spec fn view(&self) -> SongLengthView {
        SongLengthView { value: self.value@, unit: self.unit }
    }
}

/// A length that may be absent, by its view.
pub open spec fn length_view(o: Option<SongLength>) -> Option<SongLengthView> {
    match o {
        Some(l) => Some(l@),
        None => None,
    }
}

/// A length in `unit` read from a text that may be absent.
pub open spec fn length_in(text: Option<Seq<char>>, unit: TimeUnit) -> Option<SongLengthView> {
    match text {
        Some(t) => Some(SongLengthView { value: t, unit }),
        None => None,
    }
}

/// A length in `unit` made from a text that may be absent.
pub fn make_length(text: Option<String>, unit: TimeUnit) -> (r: Option<SongLength>)
    ensures
        length_view(r) == length_in(opt_view(text), unit),
{
    match text {
        Some(t) => Some(SongLength { value: t, unit }),
        None => None,
    }
}

fn copy_length(o: &Option<SongLength>) -> (r: Option<SongLength>)
    ensures
        length_view(r) == length_view(*o),
{
    match o {
        Some(l) => Some(SongLength { value: l.value.clone(), unit: l.unit }),
        None => None,
    }
}

/// A song of a ranking, playlist or shared list.
pub struct SongDetail {
    pub id: String,
    pub title: String,
    pub artist: String,
    pub album: Option<String>,
    pub album_id: Option<String>,
    pub cover_url: Option<String>,
    pub duration: Option<SongLength>,
    pub source_id: usize,
    pub platform: String,
}

pub struct SongDetailView {
    pub id: Seq<char>,
    pub title: Seq<char>,
    pub artist: Seq<char>,
    pub album: Option<Seq<char>>,
    pub album_id: Option<Seq<char>>,
    pub cover_url: Option<Seq<char>>,
    pub duration: Option<SongLengthView>,
    pub source_id: usize,
    pub platform: Seq<char>,
}

impl View for SongDetail {
    type V = SongDetailView;

    open spec fn view(&self) -> SongDetailView {
        SongDetailView {
            id: self.id@,
            title: self.title@,
            artist: self.artist@,
            album: opt_view(self.album),
            album_id: opt_view(self.album_id),
            cover_url: opt_view(self.cover_url),
            duration: length_view(self.duration),
            source_id: self.source_id,
            platform: self.platform@,
        }
    }
}

fn copy_opt(o: &Option<String>) -> (r: Option<String>)
    ensures
        opt_view(r) == opt_view(*o),
{
    match o {
        Some(s) => Some(s.clone()),
        None => None,
    }
}

impl SongDetail {
    /// A field-by-field copy.
    pub fn copied(&self) -> (r: SongDetail)
        ensures
            r@ == self@,
    {
        SongDetail {
            id: self.id.clone(),
            title: self.title.clone(),
            artist: self.artist.clone(),
            album: copy_opt(&self.album),
            album_id: copy_opt(&self.album_id),
            cover_url: copy_opt(&self.cover_url),
            duration: copy_length(&self.duration),
            source_id: self.source_id,
            platform: self.platform.clone(),
        }
    }
}

/// The views of a list of songs.
pub open spec fn song_views(v: Seq<SongDetail>) -> Seq<SongDetailView> {
    v.map_values(|s: SongDetail| s@)
}

/// A song found by a search.
pub struct SongResult {
    pub id: String,
    pub title: String,
    pub artist: String,
    pub source: String,
    pub source_id: usize,
    pub platform: String,
    pub album: Option<String>,
    pub cover_url: Option<String>,
    pub duration: Option<SongLength>,
    pub quality: Option<String>,
    pub score: i32,
}

pub struct SongResultView {
    pub id: Seq<char>,
    pub title: Seq<char>,
    pub artist: Seq<char>,
    pub source: Seq<char>,
    pub source_id: usize,
    pub platform: Seq<char>,
    pub album: Option<Seq<char>>,
    pub cover_url: Option<Seq<char>>,
    pub duration: Option<SongLengthView>,
    pub quality: Option<Seq<char>>,
    pub score: i32,
}

impl View for SongResult {
    type V = SongResultView;

    open spec fn view(&self) -> SongResultView {
        SongResultView {
            id: self.id@,
            title: self.title@,
            artist: self.artist@,
            source: self.source@,
            source_id: self.source_id,
            platform: self.platform@,
            album: opt_view(self.album),
            cover_url: opt_view(self.cover_url),
            duration: length_view(self.duration),
            quality: opt_view(self.quality),
            score: self.score,
        }
    }
}

impl SongResult {
    /// A field-by-field copy.
    pub fn copied(&self) -> (r: SongResult)
        ensures
            r@ == self@,
    {
        SongResult {
            id: self.id.clone(),
            title: self.title.clone(),
            artist: self.artist.clone(),
            source: self.source.clone(),
            source_id: self.source_id,
            platform: self.platform.clone(),
            album: copy_opt(&self.album),
            cover_url: copy_opt(&self.cover_url),
            duration: copy_length(&self.duration),
            quality: copy_opt(&self.quality),
            score: self.score,
        }
    }
}

/// The views of a list of search results.
pub open spec fn result_views(v: Seq<SongResult>) -> Seq<SongResultView> {
    v.map_values(|s: SongResult| s@)
}

/// The views of a list with one more result.
pub proof fn lemma_result_views_push(v: Seq<SongResult>, x: SongResult)
    ensures
        result_views(v.push(x)) == result_views(v).push(x@),
{
    assert(result_views(v.push(x)) =~= result_views(v).push(x@));
}

/// A ranking of a source.
pub struct RankingCategory {
    pub id: String,
    pub name: String,
    pub cover: Option<String>,
    pub source_id: usize,
    pub source_name: String,
}

/// What a ranking record says.
pub struct RankingView {
    pub id: Seq<char>,
    pub name: Seq<char>,
    pub cover: Option<Seq<char>>,
    pub source_id: usize,
    pub source_name: Seq<char>,
}

impl View for RankingCategory {
    type V = RankingView;

    open spec fn view(&self) -> RankingView {
        RankingView {
            id: self.id@,
            name: self.name@,
            cover: opt_view(self.cover),
            source_id: self.source_id,
            source_name: self.source_name@,
        }
    }
}

/// A playlist of a source, or one read from a share link.
pub struct PlaylistInfo {
    pub id: String,
    pub name: String,
    pub cover: Option<String>,
    pub song_count: Option<usize>,
    pub source_id: usize,
    pub source_name: String,
}

/// A playable link for a song.
pub struct SongUrlResult {
    pub url: String,
    pub quality: String,
    pub format: String,
}

/// A playlist read from a share link or pasted page, with its songs.
pub struct SharedPlaylist {
    pub playlist: PlaylistInfo,
    pub songs: Vec<SongDetail>,
    pub external_url: String,
    pub note: Option<String>,
}

/// What a playlist record says.
pub struct PlaylistInfoView {
    pub id: Seq<char>,
    pub name: Seq<char>,
    pub cover: Option<Seq<char>>,
    pub song_count: Option<usize>,
    pub source_id: usize,
    pub source_name: Seq<char>,
}

impl View for PlaylistInfo {
    type V = PlaylistInfoView;

    open spec fn view(&self) -> PlaylistInfoView {
        PlaylistInfoView {
            id: self.id@,
            name: self.name@,
            cover: opt_view(self.cover),
            song_count: self.song_count,
            source_id: self.source_id,
            source_name: self.source_name@,
        }
    }
}

/// What a shared playlist holds.
pub struct SharedPlaylistView {
    pub playlist: PlaylistInfoView,
    pub songs: Seq<SongDetailView>,
    pub external_url: Seq<char>,
    pub note: Option<Seq<char>>,
}

impl View for SharedPlaylist {
    type V = SharedPlaylistView;

    open spec fn view(&self) -> SharedPlaylistView {
        SharedPlaylistView {
            playlist: self.playlist@,
            songs: song_views(self.songs@),
            external_url: self.external_url@,
            note: opt_view(self.note),
        }
    }
}

} // verus!
