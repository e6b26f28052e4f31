//! What the widget knows about the track that is playing, and how a new
//! reading of the system media session updates it.
use vstd::prelude::*;
use vstd::string::StringExecFns;
use crate::lyrics::{self, LyricLine};
use crate::text::str_eq;

verus! {

/// The line shown at `pos`: the last line whose time is not after `pos`.
pub open spec fn shows_line(lines: Seq<LyricLine>, pos: u64, k: int) -> bool {
    &&& 0 <= k < lines.len()
    &&& lines[k].time_ms <= pos
    &&& (k + 1 == lines.len() || lines[k + 1].time_ms > pos)
}

/// `r` is the text shown at `pos`, or `None` when `pos` comes before the
/// first line.
pub open spec fn is_lyric_at(lines: Seq<LyricLine>, pos: u64, r: Option<String>) -> bool {
    match r {
        Some(t) => exists|k: int| shows_line(lines, pos, k) && t@ == lines[k].text@,
        None => lines.len() == 0 || lines[0].time_ms > pos,
    }
}

/// The title that the expanded island shows: the track's, or a notice
/// when no music is active or the title is empty.
pub fn shown_title(title: &str, music_active: bool) -> (r: String)
    ensures
        r@ == (if !music_active || title@.len() == 0 {
            "No Music playing"@
        } else {
            title@
        }),
{
    if !music_active || title.is_empty() {
        String::from_str("No Music playing")
    } else {
        String::from_str(title)
    }
}

/// The artist that the expanded island shows: the track's, or a notice
/// when no music is active or the artist is empty.
pub fn shown_artist(artist: &str, music_active: bool) -> (r: String)
    ensures
        r@ == (if !music_active || artist@.len() == 0 {
            "Unknown Artist"@
        } else {
            artist@
        }),
{
    if !music_active || artist.is_empty() {
        String::from_str("Unknown Artist")
    } else {
        String::from_str(artist)
    }
}

/// The position of playback `elapsed_ms` after the clock was restarted.
pub open spec fn position_after(position_ms: u64, is_playing: bool, elapsed_ms: u64) -> int {
    if is_playing {
        position_ms + elapsed_ms
    } else {
        position_ms as int
    }
}

/// The text of the lyric line shown at `pos`; `None` when `pos` is before
/// the first line. The lines are searched by halving, so the answer is
/// only meaningful for lines sorted by time (as lyrics are read); for other
/// lines it is some line's text or `None`.
pub fn lyric_at(lines: &Vec<LyricLine>, pos: u64) -> (r: Option<String>)
    ensures
        lyrics::strictly_sorted(lines@) ==> is_lyric_at(lines@, pos, r),
        r matches Some(t) ==> exists|k: int| 0 <= k < lines@.len() && t@ == lines@[k].text@,
{
    let ghost sorted = lyrics::strictly_sorted(lines@);
    let mut lo: usize = 0;
    let mut hi: usize = lines.len();
    while lo < hi
        invariant
            lo <= hi <= lines@.len(),
            sorted == lyrics::strictly_sorted(lines@),
            sorted ==> forall|i: int| 0 <= i < lo ==> (#[trigger] lines@[i]).time_ms <= pos,
            sorted ==> forall|i: int| hi <= i < lines@.len() ==> (#[trigger] lines@[i]).time_ms
                > pos,
        decreases hi - lo,
    {
        let mid = lo + (hi - lo) / 2;
        if lines[mid].time_ms <= pos {
            proof {
                if sorted {
                    assert forall|i: int| 0 <= i <= mid implies (#[trigger] lines@[i]).time_ms
                        <= pos by {
                        if i < mid {
                            assert(lines@[i].time_ms < lines@[mid as int].time_ms);
                        }
                    }
                }
            }
            lo = mid + 1;
        } else {
            proof {
                if sorted {
                    assert forall|i: int| mid <= i < lines@.len() implies (
                    #[trigger] lines@[i]).time_ms > pos by {
                        if i > mid {
                            assert(lines@[mid as int].time_ms < lines@[i].time_ms);
                        }
                    }
                }
            }
            hi = mid;
        }
    }
    if lo > 0 {
        let k = lo - 1;
        assert(sorted ==> shows_line(lines@, pos, k as int));
        Some(lines[k].text.clone())
    } else {
        None
    }
}

/// Where playback stands: the last known position, advanced by the time
/// since it was taken while the track plays.
pub fn playback_position(position_ms: u64, is_playing: bool, elapsed_ms: u64) -> (r: u64)
    requires
        is_playing ==> position_ms + elapsed_ms <= u64::MAX,
    ensures
        r == position_after(position_ms, is_playing, elapsed_ms),
{
    if is_playing {
        position_ms + elapsed_ms
    } else {
        position_ms
    }
}

/// The track that the system reports, with its lyrics and cover once they
/// have been fetched.
pub struct MediaState {
    pub title: String,
    pub artist: String,
    pub album: String,
    pub is_playing: bool,
    /// Position (ms) at the moment the playback clock was last restarted.
    pub position_ms: u64,
    pub lyrics: Option<Vec<LyricLine>>,
    /// Position (ms) in the last reading of the media session.
    pub last_smtc_pos: u64,
    pub duration_secs: u64,
    /// `title - artist`, which tells one song from another.
    pub song_id: String,
    /// Encoded cover image.
    pub thumbnail: Option<Vec<u8>>,
}

/// One reading of the media session.
pub struct PlaybackSnapshot {
    pub title: String,
    pub artist: String,
    pub album: String,
    pub is_playing: bool,
    pub position_ms: u64,
    pub duration_secs: u64,
}

/// What a reading asks the caller to do.
pub struct SyncOutcome {
    /// Restart the playback clock from now.
    pub restart_clock: bool,
    /// Fetch lyrics for the new song.
    pub fetch_lyrics: bool,
    /// Fetch the cover of the new song.
    pub fetch_thumbnail: bool,
}

/// What changing the lyric source asks the caller to do.
#[derive(Debug, PartialEq, Eq, Structural)]
pub enum SourceChange {
    /// The source is the one in use: nothing to do.
    Unchanged,
    /// Keep the new source; there is no track to fetch lyrics for.
    Store,
    /// Keep the new source and fetch the lyrics of the track again.
    StoreAndRefetch,
}

/// `title - artist`.
pub open spec fn song_key(title: Seq<char>, artist: Seq<char>) -> Seq<char> {
    title + " - "@ + artist
}

/// A `u64` read as a two's complement `i64`.
pub open spec fn as_signed(x: u64) -> int {
    if x <= i64::MAX {
        x as int
    } else {
        x - 0x1_0000_0000_0000_0000
    }
}

/// The position that the widget extrapolates just before a reading.
pub open spec fn extrapolated(m: MediaState, snap: PlaybackSnapshot, elapsed_ms: u64) -> int {
    let changed = m.song_id@ != song_key(snap.title@, snap.artist@);
    let pos: int = if changed {
        snap.position_ms as int
    } else {
        m.position_ms as int
    };
    if m.is_playing {
        pos + (if changed {
            0
        } else {
            elapsed_ms as int
        })
    } else {
        pos
    }
}

/// The reading stays within the arithmetic of 64-bit integers.
pub open spec fn snapshot_in_range(m: MediaState, snap: PlaybackSnapshot, elapsed_ms: u64) -> bool {
    let e = extrapolated(m, snap, elapsed_ms);
    &&& e <= u64::MAX
    &&& i64::MIN < as_signed(snap.position_ms) - as_signed(e as u64) <= i64::MAX
}

/// Whether a reading moves the playback clock to the reported position:
/// on a new song, when playing starts or stops, when the reported position
/// moved and is more than 800 ms off the extrapolated one, and when a
/// playing track still shows position 0 while the system reports more.
pub open spec fn should_sync(m: MediaState, snap: PlaybackSnapshot, elapsed_ms: u64) -> bool {
    let changed = m.song_id@ != song_key(snap.title@, snap.artist@);
    let pos = if changed {
        snap.position_ms
    } else {
        m.position_ms
    };
    let last = if changed {
        snap.position_ms
    } else {
        m.last_smtc_pos
    };
    let e = extrapolated(m, snap, elapsed_ms);
    let d = as_signed(snap.position_ms) - as_signed(e as u64);
    let diff = if d < 0 {
        -d
    } else {
        d
    };
    ||| changed
    ||| m.is_playing != snap.is_playing
    ||| snap.position_ms != last && diff > 800
    ||| snap.position_ms > 0 && pos == 0 && snap.is_playing
}

/// The state with these lyrics and every other field kept.
pub open spec fn with_lyrics(m: MediaState, lyrics: Option<Vec<LyricLine>>) -> MediaState {
    MediaState {
        title: m.title,
        artist: m.artist,
        album: m.album,
        is_playing: m.is_playing,
        position_ms: m.position_ms,
        lyrics,
        last_smtc_pos: m.last_smtc_pos,
        duration_secs: m.duration_secs,
        song_id: m.song_id,
        thumbnail: m.thumbnail,
    }
}

/// The state with this cover and every other field kept.
pub open spec fn with_thumbnail(m: MediaState, thumbnail: Option<Vec<u8>>) -> MediaState {
    MediaState {
        title: m.title,
        artist: m.artist,
        album: m.album,
        is_playing: m.is_playing,
        position_ms: m.position_ms,
        lyrics: m.lyrics,
        last_smtc_pos: m.last_smtc_pos,
        duration_secs: m.duration_secs,
        song_id: m.song_id,
        thumbnail,
    }
}

/// Law: for the same song with the play state unchanged, and positions
/// below 2^63 ms, a reading restarts the playback clock exactly when the
/// reported position moved and lies more than 800 ms away from the
/// extrapolated one, earlier or later (a seek back counts as much as a
/// seek forward), or when a playing track still shows 0 while more is
/// reported.
pub proof fn lemma_sync_follows_seeks(m: MediaState, snap: PlaybackSnapshot, elapsed_ms: u64)
    requires
        m.song_id@ == song_key(snap.title@, snap.artist@),
        m.is_playing == snap.is_playing,
        snap.position_ms <= i64::MAX,
        (if m.is_playing {
            m.position_ms + elapsed_ms
        } else {
            m.position_ms as int
        }) <= i64::MAX,
    ensures
        ({
            let e: int = if m.is_playing {
                m.position_ms + elapsed_ms
            } else {
                m.position_ms as int
            };
            should_sync(m, snap, elapsed_ms) <==> ((snap.position_ms != m.last_smtc_pos && (
            snap.position_ms > e + 800 || snap.position_ms + 800 < e)) || (snap.position_ms > 0
                && m.position_ms == 0 && snap.is_playing))
        }),
{
}

fn to_signed(x: u64) -> (r: i64)
    ensures
        r == as_signed(x),
{
    if x <= 0x7fff_ffff_ffff_ffff {
        x as i64
    } else {
        let y: u64 = x - 0x8000_0000_0000_0000;
        (y as i64) - 0x7fff_ffff_ffff_ffff - 1
    }
}

impl MediaState {
    /// No track.
    pub fn new() -> (r: MediaState)
        ensures
            r.title@.len() == 0,
            r.artist@.len() == 0,
            r.album@.len() == 0,
            r.song_id@.len() == 0,
            !r.is_playing,
            r.position_ms == 0,
            r.last_smtc_pos == 0,
            r.duration_secs == 0,
            r.lyrics is None,
            r.thumbnail is None,
    {
        MediaState {
            title: String::new(),
            artist: String::new(),
            album: String::new(),
            is_playing: false,
            position_ms: 0,
            lyrics: None,
            last_smtc_pos: 0,
            duration_secs: 0,
            song_id: String::new(),
            thumbnail: None,
        }
    }

    /// The lyric line at the current position of playback.
    pub fn current_lyric(&self, elapsed_ms: u64) -> (r: Option<String>)
        requires
            self.is_playing ==> self.position_ms + elapsed_ms <= u64::MAX,
        ensures
            self.lyrics is None ==> r is None,
            self.lyrics matches Some(ls) ==> lyrics::strictly_sorted(ls@) ==> is_lyric_at(
                ls@,
                position_after(self.position_ms, self.is_playing, elapsed_ms) as u64,
                r,
            ),
            self.lyrics matches Some(ls) ==> (r matches Some(t) ==> exists|k: int|
                0 <= k < ls@.len() && t@ == ls@[k].text@),
    {
        match &self.lyrics {
            None => None,
            Some(ls) => {
                if ls.len() == 0 {
                    return None;
                }
                let pos = playback_position(self.position_ms, self.is_playing, elapsed_ms);
                lyric_at(ls, pos)
            },
        }
    }

    /// Whether `apply_snapshot` may be called with these values.
    pub fn snapshot_in_range(&self, snap: &PlaybackSnapshot, elapsed_ms: u64) -> (r: bool)
        ensures
            r == snapshot_in_range(*self, *snap, elapsed_ms),
    {
        let key = Self::key_of(snap);
        let changed = !(self.song_id == key);
        let pos = if changed {
            snap.position_ms
        } else {
            self.position_ms
        };
        let e: u64 = if self.is_playing && !changed {
            match pos.checked_add(elapsed_ms) {
                Some(x) => x,
                None => return false,
            }
        } else {
            pos
        };
        let a = to_signed(snap.position_ms) as i128;
        let b = to_signed(e) as i128;
        let d = a - b;
        -0x8000_0000_0000_0000i128 < d && d <= 0x7fff_ffff_ffff_ffffi128
    }

    fn key_of(snap: &PlaybackSnapshot) -> (r: String)
        ensures
            r@ == song_key(snap.title@, snap.artist@),
    {
        let mut key = String::from_str(snap.title.as_str());
        key.append(" - ");
        key.append(snap.artist.as_str());
        key
    }

    /// Takes in a reading of the media session, `elapsed_ms` after the
    /// playback clock was last restarted. A new song (by `title - artist`)
    /// drops the lyrics and the cover and asks for them.
    pub fn apply_snapshot(&mut self, snap: &PlaybackSnapshot, elapsed_ms: u64) -> (out: SyncOutcome)
        requires
            snapshot_in_range(*old(self), *snap, elapsed_ms),
        ensures
            ({
                let changed = old(self).song_id@ != song_key(snap.title@, snap.artist@);
                let sync = should_sync(*old(self), *snap, elapsed_ms);
                &&& final(self).song_id@ == song_key(snap.title@, snap.artist@)
                &&& final(self).title@ == (if changed {
                    snap.title@
                } else {
                    old(self).title@
                })
                &&& final(self).artist@ == (if changed {
                    snap.artist@
                } else {
                    old(self).artist@
                })
                &&& final(self).album@ == snap.album@
                &&& final(self).duration_secs == snap.duration_secs
                &&& final(self).lyrics == (if changed {
                    None
                } else {
                    old(self).lyrics
                })
                &&& final(self).thumbnail == (if changed {
                    None
                } else {
                    old(self).thumbnail
                })
                &&& final(self).is_playing == snap.is_playing
                &&& final(self).last_smtc_pos == snap.position_ms
                &&& final(self).position_ms == (if sync {
                    snap.position_ms
                } else {
                    old(self).position_ms
                })
                &&& out.restart_clock == sync
                &&& out.fetch_lyrics == changed
                &&& out.fetch_thumbnail == changed
            }),
    {
        let key = Self::key_of(snap);
        let changed = !(self.song_id == key);
        if changed {
            self.title = snap.title.clone();
            self.artist = snap.artist.clone();
            self.song_id = key;
            self.lyrics = None;
            self.thumbnail = None;
            self.position_ms = snap.position_ms;
            self.last_smtc_pos = snap.position_ms;
        }
        self.album = snap.album.clone();
        self.duration_secs = snap.duration_secs;
        let current = if self.is_playing {
            if changed {
                self.position_ms
            } else {
                self.position_ms + elapsed_ms
            }
        } else {
            self.position_ms
        };
        let smtc_changed = snap.position_ms != self.last_smtc_pos;
        let d = to_signed(snap.position_ms) - to_signed(current);
        let diff = if d < 0 {
            -d
        } else {
            d
        };
        let sync = if changed {
            true
        } else if self.is_playing != snap.is_playing {
            true
        } else if smtc_changed && diff > 800 {
            true
        } else if snap.position_ms > 0 && self.position_ms == 0 && snap.is_playing {
            true
        } else {
            false
        };
        if sync {
            self.position_ms = snap.position_ms;
        }
        self.last_smtc_pos = snap.position_ms;
        self.is_playing = snap.is_playing;
        SyncOutcome { restart_clock: sync, fetch_lyrics: changed, fetch_thumbnail: changed }
    }

    /// Stores fetched lyrics if they belong to the song that is current.
    pub fn attach_lyrics(&mut self, song_id: &str, lyrics: Vec<LyricLine>)
        ensures
            *final(self) == (if old(self).song_id@ == song_id@ {
                with_lyrics(*old(self), Some(lyrics))
            } else {
                *old(self)
            }),
    {
        if str_eq(self.song_id.as_str(), song_id) {
            self.lyrics = Some(lyrics);
        }
    }

    /// Stores fetched lyrics if they belong to the track (title and artist)
    /// that is current.
    pub fn attach_lyrics_for_track(&mut self, title: &str, artist: &str, lyrics: Vec<LyricLine>)
        ensures
            *final(self) == (if old(self).title@ == title@ && old(self).artist@ == artist@ {
                with_lyrics(*old(self), Some(lyrics))
            } else {
                *old(self)
            }),
    {
        if str_eq(self.title.as_str(), title) && str_eq(self.artist.as_str(), artist) {
            self.lyrics = Some(lyrics);
        }
    }

    /// Stores a fetched cover if it belongs to the song that is current.
    pub fn attach_thumbnail(&mut self, song_id: &str, bytes: Vec<u8>)
        ensures
            *final(self) == (if old(self).song_id@ == song_id@ {
                with_thumbnail(*old(self), Some(bytes))
            } else {
                *old(self)
            }),
    {
        if str_eq(self.song_id.as_str(), song_id) {
            self.thumbnail = Some(bytes);
        }
    }

    /// The media session went away: forget the track, if there was one.
    pub fn clear_session(&mut self)
        ensures
            old(self).title@.len() == 0 ==> *final(self) == *old(self),
            old(self).title@.len() != 0 ==> final(self).title@.len() == 0
                && final(self).artist@.len() == 0 && final(self).album@.len() == 0
                && final(self).song_id@.len() == 0 && !final(self).is_playing
                && final(self).position_ms == 0 && final(self).last_smtc_pos == 0
                && final(self).duration_secs == 0 && final(self).lyrics is None
                && final(self).thumbnail is None,
    {
        if !self.title.as_str().is_empty() {
            *self = MediaState::new();
        }
    }

    /// Changing the lyric source from `current` to `requested`: nothing when
    /// they are the same; otherwise the new source is kept and, when there
    /// is a track, its lyrics are dropped to be fetched again.
    pub fn change_lyrics_source(&mut self, current: &str, requested: &str) -> (r: SourceChange)
        ensures
            r == (if current@ == requested@ {
                SourceChange::Unchanged
            } else if old(self).title@.len() == 0 {
                SourceChange::Store
            } else {
                SourceChange::StoreAndRefetch
            }),
            *final(self) == (if r == SourceChange::StoreAndRefetch {
                with_lyrics(*old(self), None)
            } else {
                *old(self)
            }),
    {
        if str_eq(current, requested) {
            return SourceChange::Unchanged;
        }
        if self.title.as_str().is_empty() {
            return SourceChange::Store;
        }
        self.lyrics = None;
        SourceChange::StoreAndRefetch
    }
}

} // verus!
