//! The play queue: which track plays after the current one, what starting a
//! track involves, and how the queue changes when songs are added.
use vstd::prelude::*;
use crate::markup::lit;
use crate::songs::{opt_view, SongDetail, SongResult};
use crate::text::{chars_of, seq_eq, string_of, trim, trim_exec};

verus! {

/// How the player moves through the queue.
#[derive(PartialEq, Eq, Structural, Clone, Copy, Debug)]
pub enum PlayMode {
    Sequential,
    Shuffle,
    RepeatOne,
}

/// What the player does after a next or previous request.
#[derive(PartialEq, Eq, Structural, Clone, Copy, Debug)]
pub enum QueueStep {
    /// Nothing changes.
    Nothing,
    /// Playback stops (the end of the queue was reached).
    Stop,
    /// The track at this position starts.
    Play(usize),
}

/// The step after the current track: in order (stopping after the last
/// track), at the shuffled position `pick` (kept within the queue), or the
/// same track again; nothing without a queue or a current track, or when
/// the position is outside the queue.
pub open spec fn next_step(len: nat, current: Option<usize>, mode: PlayMode, pick: usize) -> QueueStep {
    if len == 0 {
        QueueStep::Nothing
    } else {
        match current {
            None => QueueStep::Nothing,
            Some(c) => match mode {
                PlayMode::Sequential => if c + 1 >= len {
                    QueueStep::Stop
                } else {
                    QueueStep::Play((c + 1) as usize)
                },
                PlayMode::Shuffle => QueueStep::Play(
                    if pick < len - 1 {
                        pick
                    } else {
                        (len - 1) as usize
                    },
                ),
                PlayMode::RepeatOne => if c < len {
                    QueueStep::Play(c)
                } else {
                    QueueStep::Nothing
                },
            },
        }
    }
}

/// The step before the current track: the previous position (the first
/// one stays), if it lies in the queue.
pub open spec fn prev_step(len: nat, current: Option<usize>) -> QueueStep {
    if len == 0 {
        QueueStep::Nothing
    } else {
        match current {
            None => QueueStep::Nothing,
            Some(c) => {
                let p: usize = if c == 0 {
                    0
                } else {
                    (c - 1) as usize
                };
                if p < len {
                    QueueStep::Play(p)
                } else {
                    QueueStep::Nothing
                }
            },
        }
    }
}

/// The step after the current track (see `next_step`); `pick` is the
/// random position the shuffle drew.
pub fn next_track(len: usize, current: Option<usize>, mode: PlayMode, pick: usize) -> (r: QueueStep)
    ensures
        r == next_step(len as nat, current, mode, pick),
{
    if len == 0 {
        return QueueStep::Nothing;
    }
    match current {
        None => QueueStep::Nothing,
        Some(c) => match mode {
            PlayMode::Sequential => if c >= len - 1 {
                QueueStep::Stop
            } else {
                QueueStep::Play(c + 1)
            },
            PlayMode::Shuffle => QueueStep::Play(
                if pick < len - 1 {
                    pick
                } else {
                    len - 1
                },
            ),
            PlayMode::RepeatOne => if c < len {
                QueueStep::Play(c)
            } else {
                QueueStep::Nothing
            },
        },
    }
}

/// The step before the current track (see `prev_step`).
pub fn prev_track(len: usize, current: Option<usize>) -> (r: QueueStep)
    ensures
        r == prev_step(len as nat, current),
{
    if len == 0 {
        return QueueStep::Nothing;
    }
    match current {
        None => QueueStep::Nothing,
        Some(c) => {
            let p = if c == 0 {
                0
            } else {
                c - 1
            };
            if p < len {
                QueueStep::Play(p)
            } else {
                QueueStep::Nothing
            }
        },
    }
}

/// A track of the queue.
pub struct QueueTrack {
    pub title: String,
    pub artist: String,
    pub cover_url: Option<String>,
    pub url: Option<String>,
    pub source_id: usize,
    pub song_id: String,
    pub platform: String,
    pub quality: Option<String>,
    pub format: Option<String>,
}

pub struct QueueTrackView {
    pub title: Seq<char>,
    pub artist: Seq<char>,
    pub cover_url: Option<Seq<char>>,
    pub url: Option<Seq<char>>,
    pub source_id: usize,
    pub song_id: Seq<char>,
    pub platform: Seq<char>,
    pub quality: Option<Seq<char>>,
    pub format: Option<Seq<char>>,
}

impl View for QueueTrack {
    type V = QueueTrackView;

    open spec fn view(&self) -> QueueTrackView {
        QueueTrackView {
            title: self.title@,
            artist: self.artist@,
            cover_url: opt_view(self.cover_url),
            url: opt_view(self.url),
            source_id: self.source_id,
            song_id: self.song_id@,
            platform: self.platform@,
            quality: opt_view(self.quality),
            format: opt_view(self.format),
        }
    }
}

fn copy_opt_text(o: &Option<String>) -> (r: Option<String>)
    ensures
        opt_view(r) == opt_view(*o),
{
    match o {
        Some(s) => Some(s.clone()),
        None => None,
    }
}

impl QueueTrack {
    /// A track for a search result, not yet resolved to a link.
    pub fn from_search_result(song: &SongResult) -> (r: QueueTrack)
        ensures
            r@ == (QueueTrackView {
                title: song@.title,
                artist: song@.artist,
                cover_url: song@.cover_url,
                url: None,
                source_id: song@.source_id,
                song_id: song@.id,
                platform: song@.platform,
                quality: song@.quality,
                format: None,
            }),
    {
        QueueTrack {
            title: song.title.clone(),
            artist: song.artist.clone(),
            cover_url: copy_opt_text(&song.cover_url),
            url: None,
            source_id: song.source_id,
            song_id: song.id.clone(),
            platform: song.platform.clone(),
            quality: copy_opt_text(&song.quality),
            format: None,
        }
    }

    /// A track for a song of a list, not yet resolved to a link.
    pub fn from_song_detail(song: &SongDetail) -> (r: QueueTrack)
        ensures
            r@ == (QueueTrackView {
                title: song@.title,
                artist: song@.artist,
                cover_url: song@.cover_url,
                url: None,
                source_id: song@.source_id,
                song_id: song@.id,
                platform: song@.platform,
                quality: None,
                format: None,
            }),
    {
        QueueTrack {
            title: song.title.clone(),
            artist: song.artist.clone(),
            cover_url: copy_opt_text(&song.cover_url),
            url: None,
            source_id: song.source_id,
            song_id: song.id.clone(),
            platform: song.platform.clone(),
            quality: None,
            format: None,
        }
    }

    /// A field-by-field copy.
    pub fn copied(&self) -> (r: QueueTrack)
        ensures
            r@ == self@,
    {
        QueueTrack {
            title: self.title.clone(),
            artist: self.artist.clone(),
            cover_url: copy_opt_text(&self.cover_url),
            url: copy_opt_text(&self.url),
            source_id: self.source_id,
            song_id: self.song_id.clone(),
            platform: self.platform.clone(),
            quality: copy_opt_text(&self.quality),
            format: copy_opt_text(&self.format),
        }
    }
}

/// The views of a list of tracks.
pub open spec fn track_views(v: Seq<QueueTrack>) -> Seq<QueueTrackView> {
    v.map_values(|t: QueueTrack| t@)
}

/// What starting a track involves.
pub enum TrackStart {
    /// No track there: nothing happens.
    Missing,
    /// Its link is known: play it, and fetch its details when it has an id.
    PlayUrl(String, bool),
    /// Its link must be resolved from its id first.
    Resolve,
    /// It has neither link nor id: it is selected and nothing plays.
    Idle,
}

/// The queue and its current position.
pub struct PlayQueue {
    pub tracks: Vec<QueueTrack>,
    pub current: Option<usize>,
}

impl PlayQueue {
    /// An empty queue.
    pub fn new() -> (r: PlayQueue)
        ensures
            r.tracks@.len() == 0,
            r.current is None,
    {
        PlayQueue { tracks: Vec::new(), current: None }
    }

    /// Starts the track at `index`: it becomes current when it exists.
    pub fn play_track_at(&mut self, index: usize) -> (r: TrackStart)
        ensures
            track_views(final(self).tracks@) == track_views(old(self).tracks@),
            index >= old(self).tracks@.len() ==> r is Missing && final(self).current == old(self).current,
            index < old(self).tracks@.len() ==> {
                let t = old(self).tracks@[index as int]@;
                &&& final(self).current == Some(index)
                &&& match t.url {
                    Some(u) => r matches TrackStart::PlayUrl(v, fetch) && v@ == u && fetch == (t.song_id.len() > 0),
                    None => if t.song_id.len() > 0 {
                        r is Resolve
                    } else {
                        r is Idle
                    },
                }
            },
    {
        if index >= self.tracks.len() {
            return TrackStart::Missing;
        }
        self.current = Some(index);
        let has_id = chars_of(self.tracks[index].song_id.as_str()).len() > 0;
        match &self.tracks[index].url {
            Some(u) => TrackStart::PlayUrl(u.clone(), has_id),
            None => if has_id {
                TrackStart::Resolve
            } else {
                TrackStart::Idle
            },
        }
    }

    /// Replaces the queue with `tracks` when `index` lies within them (the
    /// caller then starts that track); says whether it did.
    pub fn replace_queue(&mut self, tracks: Vec<QueueTrack>, index: usize) -> (r: bool)
        ensures
            r == (index < tracks@.len()),
            r ==> track_views(final(self).tracks@) == track_views(tracks@),
            !r ==> track_views(final(self).tracks@) == track_views(old(self).tracks@),
            final(self).current == old(self).current,
    {
        if tracks.len() == 0 || index >= tracks.len() {
            return false;
        }
        self.tracks = tracks;
        true
    }

    /// Adds tracks at the end; a queue that was empty with no current track
    /// then has its first track current.  Says whether that happened (the
    /// queue is then shown).
    pub fn append_tracks(&mut self, tracks: Vec<QueueTrack>) -> (r: bool)
        ensures
            track_views(final(self).tracks@) == track_views(old(self).tracks@) + track_views(tracks@),
            r == (old(self).tracks@.len() == 0 && old(self).current is None),
            final(self).current == if r {
                Some(0usize)
            } else {
                old(self).current
            },
    {
        let was_empty = self.tracks.len() == 0;
        let ghost before = self.tracks@;
        let mut more = tracks;
        let ghost added = more@;
        self.tracks.append(&mut more);
        assert(track_views(self.tracks@) =~= track_views(before) + track_views(added));
        if was_empty && self.current.is_none() {
            self.current = Some(0);
            true
        } else {
            false
        }
    }

    /// Whether the track at `index` is current and is the song `song_id`
    /// of `platform`.
    pub fn current_track_matches(&self, index: usize, song_id: &str, platform: &str) -> (r: bool)
        ensures
            r == (self.current == Some(index) && index < self.tracks@.len()
                && self.tracks@[index as int]@.song_id == song_id@
                && self.tracks@[index as int]@.platform == platform@),
    {
        if self.current != Some(index) || index >= self.tracks.len() {
            return false;
        }
        seq_eq(&chars_of(self.tracks[index].song_id.as_str()), &chars_of(song_id)) && seq_eq(
            &chars_of(self.tracks[index].platform.as_str()),
            &chars_of(platform),
        )
    }

    /// Records the cover the details of a song give, when the track at
    /// `index` is still current and is still that song (details that come
    /// back late for another track are dropped); says whether it did.
    pub fn apply_song_info(
        &mut self,
        index: usize,
        song_id: &str,
        platform: &str,
        cover_url: Option<String>,
    ) -> (r: bool)
        ensures
            r == (old(self).current == Some(index) && index < old(self).tracks@.len()
                && old(self).tracks@[index as int]@.song_id == song_id@
                && old(self).tracks@[index as int]@.platform == platform@),
            final(self).current == old(self).current,
            r ==> track_views(final(self).tracks@) == track_views(old(self).tracks@).update(
                index as int,
                QueueTrackView { cover_url: opt_view(cover_url), ..old(self).tracks@[index as int]@ },
            ),
            !r ==> track_views(final(self).tracks@) == track_views(old(self).tracks@),
    {
        if !self.current_track_matches(index, song_id, platform) {
            return false;
        }
        let ghost before = self.tracks@;
        let mut t = self.tracks[index].copied();
        t.cover_url = cover_url;
        let ghost tv = t@;
        self.tracks.set(index, t);
        assert(track_views(self.tracks@) =~= track_views(before).update(index as int, tv));
        true
    }

    /// Records the link resolved for the track at `index`; a blank link is
    /// refused (the caller reports it and stops).
    pub fn apply_song_url(&mut self, index: usize, url: String, quality: String, format: String) -> (r:
        bool)
        ensures
            r == (trim(url@).len() > 0),
            final(self).current == old(self).current,
            final(self).tracks@.len() == old(self).tracks@.len(),
            r && index < old(self).tracks@.len() ==> track_views(final(self).tracks@) == track_views(
                old(self).tracks@,
            ).update(
                index as int,
                QueueTrackView {
                    url: Some(url@),
                    quality: Some(quality@),
                    format: Some(format@),
                    ..old(self).tracks@[index as int]@
                },
            ),
            !(r && index < old(self).tracks@.len()) ==> track_views(final(self).tracks@) == track_views(
                old(self).tracks@,
            ),
    {
        if trim_exec(&chars_of(url.as_str())).len() == 0 {
            return false;
        }
        if index < self.tracks.len() {
            let ghost before = self.tracks@;
            let mut t = self.tracks[index].copied();
            t.url = Some(url);
            t.quality = Some(quality);
            t.format = Some(format);
            let ghost tv = t@;
            self.tracks.set(index, t);
            assert(track_views(self.tracks@) =~= track_views(before).update(index as int, tv));
        }
        true
    }
}

/// The message shown when a resolved link is blank.
pub fn empty_link_message() -> (r: String)
    ensures
        r@ == "播放链接为空"@,
{
    string_of(&lit("播放链接为空"))
}

} // verus!
