//! The user's favourite songs and playlists.
use vstd::prelude::*;
use crate::player::QueueTrack;
use crate::songs::{
    length_view, opt_view, PlaylistInfo, SongDetail, SongLength, SongLengthView, SongResult,
};
use crate::text::{chars_of, seq_eq};

verus! {

/// A favourite song.
pub struct FavoriteSong {
    pub id: String,
    pub title: String,
    pub artist: String,
    pub album: Option<String>,
    pub cover_url: Option<String>,
    pub duration: Option<SongLength>,
    pub source_id: usize,
    pub source: String,
    pub platform: String,
}

pub struct FavoriteSongView {
    pub id: Seq<char>,
    pub title: Seq<char>,
    pub artist: Seq<char>,
    pub album: Option<Seq<char>>,
    pub cover_url: Option<Seq<char>>,
    pub duration: Option<SongLengthView>,
    pub source_id: usize,
    pub source: Seq<char>,
    pub platform: Seq<char>,
}

impl View for FavoriteSong {
    type V = FavoriteSongView;

    open spec fn view(&self) -> FavoriteSongView {
        FavoriteSongView {
            id: self.id@,
            title: self.title@,
            artist: self.artist@,
            album: opt_view(self.album),
            cover_url: opt_view(self.cover_url),
            duration: length_view(self.duration),
            source_id: self.source_id,
            source: self.source@,
            platform: self.platform@,
        }
    }
}

/// A favourite playlist.
pub struct FavoritePlaylist {
    pub id: String,
    pub name: String,
    pub cover: Option<String>,
    pub song_count: Option<usize>,
    pub source_id: usize,
    pub source_name: String,
    pub external_url: Option<String>,
}

pub struct FavoritePlaylistView {
    pub id: Seq<char>,
    pub name: Seq<char>,
    pub cover: Option<Seq<char>>,
    pub song_count: Option<usize>,
    pub source_id: usize,
    pub source_name: Seq<char>,
    pub external_url: Option<Seq<char>>,
}

impl View for FavoritePlaylist {
    type V = FavoritePlaylistView;

    open spec fn view(&self) -> FavoritePlaylistView {
        FavoritePlaylistView {
            id: self.id@,
            name: self.name@,
            cover: opt_view(self.cover),
            song_count: self.song_count,
            source_id: self.source_id,
            source_name: self.source_name@,
            external_url: opt_view(self.external_url),
        }
    }
}

/// The favourites of the user.
pub struct FavoritesData {
    pub songs: Vec<FavoriteSong>,
    pub playlists: Vec<FavoritePlaylist>,
}

/// The views of a list of favourite songs.
pub open spec fn favorite_views(v: Seq<FavoriteSong>) -> Seq<FavoriteSongView> {
    v.map_values(|s: FavoriteSong| s@)
}

/// The views of a list of favourite playlists.
pub open spec fn favorite_playlist_views(v: Seq<FavoritePlaylist>) -> Seq<FavoritePlaylistView> {
    v.map_values(|p: FavoritePlaylist| p@)
}

/// Two favourites are the same song: by id and platform when either has
/// an id, else by title and artist.
pub open spec fn same_song(a: FavoriteSongView, b: FavoriteSongView) -> bool {
    if a.id.len() > 0 || b.id.len() > 0 {
        a.id == b.id && a.platform == b.platform
    } else {
        a.title == b.title && a.artist == b.artist
    }
}

/// Whether two favourites are the same song (see `same_song`).
pub fn same_song_favorite(left: &FavoriteSong, right: &FavoriteSong) -> (r: bool)
    ensures
        r == same_song(left@, right@),
{
    let lid = chars_of(left.id.as_str());
    let rid = chars_of(right.id.as_str());
    if lid.len() > 0 || rid.len() > 0 {
        seq_eq(&lid, &rid) && seq_eq(
            &chars_of(left.platform.as_str()),
            &chars_of(right.platform.as_str()),
        )
    } else {
        seq_eq(&chars_of(left.title.as_str()), &chars_of(right.title.as_str())) && seq_eq(
            &chars_of(left.artist.as_str()),
            &chars_of(right.artist.as_str()),
        )
    }
}

/// The first position of a favourite that is the same song as `x`.
pub open spec fn song_position(s: Seq<FavoriteSongView>, x: FavoriteSongView, from: int) -> Option<int>
    decreases s.len() - from,
{
    if from < 0 || from >= s.len() {
        None
    } else if same_song(s[from], x) {
        Some(from)
    } else {
        song_position(s, x, from + 1)
    }
}

/// The favourite songs after toggling `x`: the first one that is the same
/// song is removed, else `x` is put first.
pub open spec fn toggled_songs(s: Seq<FavoriteSongView>, x: FavoriteSongView) -> Seq<FavoriteSongView> {
    match song_position(s, x, 0) {
        Some(i) => s.remove(i),
        None => seq![x] + s,
    }
}

/// Toggles a favourite song (see `toggled_songs`).
pub fn toggle_favorite_song(data: &mut FavoritesData, song: FavoriteSong)
    ensures
        favorite_views(final(data).songs@) == toggled_songs(favorite_views(old(data).songs@), song@),
        favorite_playlist_views(final(data).playlists@) == favorite_playlist_views(
            old(data).playlists@,
        ),
{
    let ghost s = favorite_views(data.songs@);
    let mut i: usize = 0;
    while i < data.songs.len()
        invariant
            i <= data.songs.len(),
            s == favorite_views(data.songs@),
            data.songs@ == old(data).songs@,
            data.playlists@ == old(data).playlists@,
            song_position(s, song@, 0) == song_position(s, song@, i as int),
        decreases data.songs.len() - i,
    {
        if same_song_favorite(&data.songs[i], &song) {
            let ghost before = data.songs@;
            data.songs.remove(i);
            assert(favorite_views(data.songs@) =~= s.remove(i as int));
            return;
        }
        i += 1;
    }
    let ghost before = data.songs@;
    let ghost sv = song@;
    data.songs.insert(0, song);
    assert(favorite_views(data.songs@) =~= seq![sv] + s);
}

/// The first position of a favourite playlist with `id` and `source_name`.
pub open spec fn playlist_position(s: Seq<FavoritePlaylistView>, x: FavoritePlaylistView, from: int) -> Option<
    int,
>
    decreases s.len() - from,
{
    if from < 0 || from >= s.len() {
        None
    } else if s[from].id == x.id && s[from].source_name == x.source_name {
        Some(from)
    } else {
        playlist_position(s, x, from + 1)
    }
}

/// The favourite playlists after toggling `x`: the first one with its id
/// and source name is removed, else `x` is put first.
pub open spec fn toggled_playlists(s: Seq<FavoritePlaylistView>, x: FavoritePlaylistView) -> Seq<
    FavoritePlaylistView,
> {
    match playlist_position(s, x, 0) {
        Some(i) => s.remove(i),
        None => seq![x] + s,
    }
}

/// Toggles a favourite playlist (see `toggled_playlists`).
pub fn toggle_favorite_playlist(data: &mut FavoritesData, playlist: FavoritePlaylist)
    ensures
        favorite_playlist_views(final(data).playlists@) == toggled_playlists(
            favorite_playlist_views(old(data).playlists@),
            playlist@,
        ),
        favorite_views(final(data).songs@) == favorite_views(old(data).songs@),
{
    let ghost s = favorite_playlist_views(data.playlists@);
    let pid = chars_of(playlist.id.as_str());
    let pname = chars_of(playlist.source_name.as_str());
    let mut i: usize = 0;
    while i < data.playlists.len()
        invariant
            i <= data.playlists.len(),
            s == favorite_playlist_views(data.playlists@),
            data.songs@ == old(data).songs@,
            data.playlists@ == old(data).playlists@,
            pid@ == playlist@.id,
            pname@ == playlist@.source_name,
            playlist_position(s, playlist@, 0) == playlist_position(s, playlist@, i as int),
        decreases data.playlists.len() - i,
    {
        if seq_eq(&chars_of(data.playlists[i].id.as_str()), &pid) && seq_eq(
            &chars_of(data.playlists[i].source_name.as_str()),
            &pname,
        ) {
            data.playlists.remove(i);
            assert(favorite_playlist_views(data.playlists@) =~= s.remove(i as int));
            return;
        }
        i += 1;
    }
    let ghost pv = playlist@;
    data.playlists.insert(0, playlist);
    assert(favorite_playlist_views(data.playlists@) =~= seq![pv] + s);
}

fn copy_text(o: &Option<String>) -> (r: Option<String>)
    ensures
        opt_view(r) == opt_view(*o),
{
    match o {
        Some(s) => Some(s.clone()),
        None => None,
    }
}

fn copy_len(o: &Option<SongLength>) -> (r: Option<SongLength>)
    ensures
        length_view(r) == length_view(*o),
{
    match o {
        Some(l) => Some(SongLength { value: l.value.clone(), unit: l.unit }),
        None => None,
    }
}

/// A search result as a favourite.
pub fn favorite_from_song_result(song: &SongResult) -> (r: FavoriteSong)
    ensures
        r@ == (FavoriteSongView {
            id: song@.id,
            title: song@.title,
            artist: song@.artist,
            album: song@.album,
            cover_url: song@.cover_url,
            duration: song@.duration,
            source_id: song@.source_id,
            source: song@.source,
            platform: song@.platform,
        }),
{
    FavoriteSong {
        id: song.id.clone(),
        title: song.title.clone(),
        artist: song.artist.clone(),
        album: copy_text(&song.album),
        cover_url: copy_text(&song.cover_url),
        duration: copy_len(&song.duration),
        source_id: song.source_id,
        source: song.source.clone(),
        platform: song.platform.clone(),
    }
}

/// A song of a list as a favourite (its platform stands as its source).
pub fn favorite_from_song_detail(song: &SongDetail) -> (r: FavoriteSong)
    ensures
        r@ == (FavoriteSongView {
            id: song@.id,
            title: song@.title,
            artist: song@.artist,
            album: song@.album,
            cover_url: song@.cover_url,
            duration: song@.duration,
            source_id: song@.source_id,
            source: song@.platform,
            platform: song@.platform,
        }),
{
    FavoriteSong {
        id: song.id.clone(),
        title: song.title.clone(),
        artist: song.artist.clone(),
        album: copy_text(&song.album),
        cover_url: copy_text(&song.cover_url),
        duration: copy_len(&song.duration),
        source_id: song.source_id,
        source: song.platform.clone(),
        platform: song.platform.clone(),
    }
}

/// The playing track as a favourite (no album or length; its platform
/// stands as its source).
pub fn favorite_from_track(track: &QueueTrack) -> (r: FavoriteSong)
    ensures
        r@ == (FavoriteSongView {
            id: track@.song_id,
            title: track@.title,
            artist: track@.artist,
            album: None,
            cover_url: track@.cover_url,
            duration: None,
            source_id: track@.source_id,
            source: track@.platform,
            platform: track@.platform,
        }),
{
    FavoriteSong {
        id: track.song_id.clone(),
        title: track.title.clone(),
        artist: track.artist.clone(),
        album: None,
        cover_url: copy_text(&track.cover_url),
        duration: None,
        source_id: track.source_id,
        source: track.platform.clone(),
        platform: track.platform.clone(),
    }
}

/// A playlist as a favourite, with the link it was shared by.
pub fn favorite_from_playlist(playlist: &PlaylistInfo, external_url: Option<String>) -> (r:
    FavoritePlaylist)
    ensures
        r@ == (FavoritePlaylistView {
            id: playlist@.id,
            name: playlist@.name,
            cover: playlist@.cover,
            song_count: playlist@.song_count,
            source_id: playlist@.source_id,
            source_name: playlist@.source_name,
            external_url: opt_view(external_url),
        }),
{
    FavoritePlaylist {
        id: playlist.id.clone(),
        name: playlist.name.clone(),
        cover: copy_text(&playlist.cover),
        song_count: playlist.song_count,
        source_id: playlist.source_id,
        source_name: playlist.source_name.clone(),
        external_url,
    }
}

} // verus!
