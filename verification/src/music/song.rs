//! Songs, their metadata and the queue of songs waiting to be played.
use std::collections::VecDeque;
use std::time::Duration;

use vstd::prelude::*;

verus! {

/// What is known of a song besides its title.
pub struct MetaData {
    pub artist: Option<String>,
    pub album: Option<String>,
    pub genere: Option<String>,
    pub release_date: Option<String>,
}

impl MetaData {
    /// Metadata with the given fields; the duration is not kept.
    pub fn new(
        artist: Option<String>,
        album: Option<String>,
        genere: Option<String>,
        duration: Option<Duration>,
        release_date: Option<String>,
    ) -> (m: MetaData)
        ensures
            m.artist == artist,
            m.album == album,
            m.genere == genere,
            m.release_date == release_date,
    {
        MetaData { artist, album, genere, release_date }
    }

    /// The text written into a song file's tag for this metadata: each
    /// field, or `Unknown` where it is missing.
    pub fn tag_fields(self) -> (t: TagFields)
        ensures
            t.artist@ == text_or(self.artist, "Unknown"@),
            t.album@ == text_or(self.album, "Unknown"@),
            t.genre@ == text_or(self.genere, "Unknown"@),
    {
        TagFields {
            artist: string_or(self.artist, "Unknown"),
            album: string_or(self.album, "Unknown"),
            genre: string_or(self.genere, "Unknown"),
        }
    }
}

/// The artist, album and genre stored in a song file's tag.
#[derive(Debug)]
pub struct TagFields {
    pub artist: String,
    pub album: String,
    pub genre: String,
}

/// The text of `s`, or `default` where there is none.
pub open spec fn text_or(s: Option<String>, default: Seq<char>) -> Seq<char> {
    match s {
        Some(t) => t@,
        None => default,
    }
}

fn string_or(s: Option<String>, default: &str) -> (r: String)
    ensures
        r@ == text_or(s, default@),
{
    match s {
        Some(t) => t,
        None => default.to_owned(),
    }
}

fn str_or(s: Option<&str>, default: &str) -> (r: String)
    ensures
        r@ == match s {
            Some(t) => t@,
            None => default@,
        },
{
    match s {
        Some(t) => t.to_owned(),
        None => default.to_owned(),
    }
}

/// The metadata shown for a song whose tag holds the given artist, album
/// and genre: each is present, `Unknown Artist`, `Unknown Album` or
/// `Unknown Genre` standing for what the tag lacks; there is no release
/// date.
pub fn meta_data_from_tag(artist: Option<&str>, album: Option<&str>, genre: Option<&str>) -> (m:
    MetaData)
    ensures
        m.artist matches Some(a) && a@ == match artist {
            Some(t) => t@,
            None => "Unknown Artist"@,
        },
        m.album matches Some(a) && a@ == match album {
            Some(t) => t@,
            None => "Unknown Album"@,
        },
        m.genere matches Some(g) && g@ == match genre {
            Some(t) => t@,
            None => "Unknown Genre"@,
        },
        m.release_date is None,
{
    let artist = str_or(artist, "Unknown Artist");
    let album = str_or(album, "Unknown Album");
    let genre = str_or(genre, "Unknown Genre");
    MetaData::new(Some(artist), Some(album), Some(genre), None, None)
}

/// A song: its title and the path of its file.
pub struct Song {
    pub title: String,
    pub path: String,
}

impl Song {
    /// The song with the given title and file.
    pub fn new(title: String, path: String) -> (s: Song)
        ensures
            s.title == title,
            s.path == path,
    {
        Song { title, path }
    }

    /// The text shown for a song: its title in square brackets.
    pub fn describe(&self) -> (d: String)
        ensures
            d@ == song_text(self.title@),
    {
        let mut d = String::from_str("[");
        d.append(self.title.as_str());
        d.append("]");
        d
    }
}

impl PartialEq for Song {
    /// Two songs are the same song when their titles are equal.
    fn eq(&self, other: &Song) -> (r: bool) {
        self.title == other.title
    }
}

impl vstd::std_specs::cmp::PartialEqSpecImpl for Song {
    open spec fn obeys_eq_spec() -> bool {
        true
    }

    open spec fn eq_spec(&self, other: &Song) -> bool {
        self.title@ == other.title@
    }
}

/// The songs waiting to be played, first to play first.
pub struct Queue {
    queue: VecDeque<Song>,
}

impl View for Queue {
    type V = Seq<Song>;

    closed spec fn view(&self) -> Seq<Song> {
        self.queue@
    }
}

/// The text shown for a song titled `title`: the title in square brackets.
pub open spec fn song_text(title: Seq<char>) -> Seq<char> {
    "["@ + title + "]"@
}

/// The texts of the songs of `q`, separated by a comma and a space.
pub open spec fn songs_text(q: Seq<Song>) -> Seq<char>
    decreases q.len(),
{
    if q.len() == 0 {
        seq![]
    } else if q.len() == 1 {
        song_text(q[0].title@)
    } else {
        songs_text(q.drop_last()) + ", "@ + song_text(q.last().title@)
    }
}

/// The text shown for a queue: its songs' texts, in order, in square
/// brackets.
pub open spec fn queue_text(q: Seq<Song>) -> Seq<char> {
    "["@ + songs_text(q) + "]"@
}

/// Whether `q` holds a song with the title of `song`.
pub open spec fn holds_title(q: Seq<Song>, song: Song) -> bool {
    exists|i: int| 0 <= i < q.len() && (#[trigger] q[i]).title@ == song.title@
}

impl Queue {
    /// An empty queue.
    pub fn new() -> (q: Queue)
        ensures
            q@ == Seq::<Song>::empty(),
    {
        Queue { queue: VecDeque::new() }
    }

    /// Whether no song is waiting.
    pub fn is_empty(&self) -> (r: bool)
        ensures
            r == (self@.len() == 0),
    {
        self.queue.len() == 0
    }

    /// The number of songs waiting.
    pub fn size(&self) -> (n: usize)
        ensures
            n == self@.len(),
    {
        self.queue.len()
    }

    /// Removes every song.
    pub fn clear(&mut self)
        ensures
            final(self)@ == Seq::<Song>::empty(),
    {
        self.queue.clear();
    }

    /// Puts `song` first, before every waiting song.
    pub fn add_front(&mut self, song: Song)
        ensures
            final(self)@ == seq![song] + old(self)@,
    {
        self.queue.push_front(song);
    }

    /// Puts `song` last, after every waiting song.
    pub fn push(&mut self, song: Song)
        ensures
            final(self)@ == old(self)@.push(song),
    {
        self.queue.push_back(song);
    }

    /// Takes the first song out of the queue, if there is one.
    pub fn get_first(&mut self) -> (first: Option<Song>)
        ensures
            old(self)@.len() == 0 ==> first is None && final(self)@ == old(self)@,
            old(self)@.len() > 0 ==> first == Some(old(self)@[0])
                && final(self)@ == old(self)@.drop_first(),
    {
        let r = self.queue.pop_front();
        proof {
            if old(self)@.len() > 0 {
                assert(old(self)@.subrange(1, old(self)@.len() as int) == old(self)@.drop_first());
            }
        }
        r
    }

    /// Takes the song at position `index` out of the queue, if there is one.
    pub fn remove_at(&mut self, index: usize) -> (removed: Option<Song>)
        ensures
            index < old(self)@.len() ==> removed == Some(old(self)@[index as int])
                && final(self)@ == old(self)@.remove(index as int),
            index >= old(self)@.len() ==> removed is None && final(self)@ == old(self)@,
    {
        self.queue.remove(index)
    }

    /// The text shown for the queue (see `queue_text`).
    pub fn describe(&self) -> (d: String)
        ensures
            d@ == queue_text(self@),
    {
        let ghost q = self@;
        let n = self.queue.len();
        let mut body = String::new();
        assert(q.take(0) =~= seq![]);
        assert(body@ =~= seq![]);
        for i in 0..n
            invariant
                n == q.len(),
                q == self@,
                body@ == songs_text(q.take(i as int)),
        {
            assert(q.take(i + 1).drop_last() == q.take(i as int));
            assert(q.take(i + 1).last() == q[i as int]);
            let item = self.queue[i].describe();
            if i > 0 {
                body.append(", ");
            } else {
                assert(q.take(1) == seq![q[0]]);
                assert(body@ + item@ =~= item@);
            }
            body.append(item.as_str());
        }
        assert(q.take(n as int) == q);
        let mut d = String::from_str("[");
        d.append(body.as_str());
        d.append("]");
        d
    }

    /// Whether a song with the title of `song` is waiting.
    pub fn contains(&self, song: &Song) -> (r: bool)
        ensures
            r == holds_title(self@, *song),
    {
        let n = self.queue.len();
        for i in 0..n
            invariant
                n == self@.len(),
                forall|j: int| 0 <= j < i ==> (#[trigger] self@[j]).title@ != song.title@,
        {
            if self.queue[i].title == song.title {
                assert(self@[i as int].title@ == song.title@);
                return true;
            }
        }
        false
    }
}

} // verus!

verus! {

/// A song just queued, first or last, is waiting (`contains` finds it).
pub proof fn lemma_queued_song_is_held(q: Seq<Song>, song: Song)
    ensures
        holds_title(q.push(song), song),
        holds_title(seq![song] + q, song),
{
    assert(q.push(song)[q.len() as int] == song);
    assert((seq![song] + q)[0] == song);
}

/// The queue plays first in, first out: a song put first is the next taken
/// by `get_first`, and putting a song last does not change which song is
/// taken next nor the order of the others.
pub proof fn lemma_queue_order(q: Seq<Song>, song: Song)
    ensures
        (seq![song] + q)[0] == song,
        (seq![song] + q).drop_first() == q,
        q.len() > 0 ==> q.push(song)[0] == q[0],
        q.len() > 0 ==> q.push(song).drop_first() == q.drop_first().push(song),
{
    assert((seq![song] + q).drop_first() =~= q);
    if q.len() > 0 {
        assert(q.push(song).drop_first() =~= q.drop_first().push(song));
    }
}

} // verus!
