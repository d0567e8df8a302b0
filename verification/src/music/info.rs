//! The names shown for the songs and playlists found in the songs folder.
use vstd::prelude::*;

use crate::text::{after_bytes, cuts_at, same_text, slice_from, trim_text, trimmed};

verus! {

/// `path` without a final `.mp3`.
pub open spec fn strip_mp3(path: Seq<char>) -> Seq<char> {
    if path.len() >= 4 && path.subrange(path.len() - 4, path.len() as int) == ".mp3"@ {
        path.take(path.len() - 4)
    } else {
        path
    }
}

/// The name shown for the song file at `path` (such as
/// `./songs/name.mp3`): the path without `.mp3` and without its first eight
/// bytes, or `None` where those eight bytes do not end at a character.
pub fn song_label(path: &str) -> (r: Option<String>)
    ensures
        r is Some <==> cuts_at(strip_mp3(path@), 8),
        r matches Some(name) ==> name@ == after_bytes(strip_mp3(path@), 8),
{
    let n = path.unicode_len();
    if n >= 4 {
        let tail = path.substring_char(n - 4, n);
        if same_text(tail, ".mp3") {
            let stem = path.substring_char(0, n - 4);
            return slice_from(stem, 8);
        }
    }
    slice_from(path, 8)
}

/// The name shown for the playlist folder `name`: the whole name when it is
/// selected, else the name without its first eight bytes (`None` where those
/// do not end at a character).
pub fn playlist_label(name: &str, selected: bool) -> (r: Option<String>)
    ensures
        selected ==> (r matches Some(l) && l@ == name@),
        !selected ==> (r is Some <==> cuts_at(name@, 8)),
        !selected ==> (r matches Some(l) ==> l@ == after_bytes(name@, 8)),
{
    if selected {
        Some(name.to_owned())
    } else {
        slice_from(name, 8)
    }
}

} // verus!

verus! {

/// An entry of a list shown on screen: its name and whether it is
/// highlighted.
pub struct ListedName {
    pub label: String,
    pub selected: bool,
}

/// The entries as text.
pub open spec fn listed_view(entries: Seq<ListedName>) -> Seq<(Seq<char>, bool)> {
    entries.map_values(|e: ListedName| (e.label@, e.selected))
}

/// The paths of the song files, each as text where it has one.
pub open spec fn paths_view(paths: Seq<Option<String>>) -> Seq<Option<Seq<char>>> {
    paths.map_values(
        |p: Option<String>|
            match p {
                Some(s) => Some(s@),
                None => None,
            },
    )
}

/// The song list for the song files `paths` (in the folder's order; `None`
/// for a path that is not text): each path that is text gives its label
/// (see `song_label`), highlighted when it is file number `target`; files
/// without a text path are counted but not listed. `None` where a label
/// cannot be cut.
pub open spec fn listed_songs(paths: Seq<Option<Seq<char>>>, target: int) -> Option<
    Seq<(Seq<char>, bool)>,
>
    decreases paths.len(),
{
    if paths.len() == 0 {
        Some(seq![])
    } else {
        match listed_songs(paths.drop_last(), target) {
            None => None,
            Some(prev) => match paths.last() {
                None => Some(prev),
                Some(p) => if cuts_at(strip_mp3(p), 8) {
                    Some(prev.push((after_bytes(strip_mp3(p), 8), paths.len() - 1 == target)))
                } else {
                    None
                },
            },
        }
    }
}

/// The song list for the song files `paths` (see `listed_songs`).
pub fn local_song_entries(paths: &Vec<Option<String>>, target: usize) -> (r: Option<
    Vec<ListedName>,
>)
    ensures
        match r {
            Some(v) => listed_songs(paths_view(paths@), target as int) == Some(listed_view(v@)),
            None => listed_songs(paths_view(paths@), target as int) is None,
        },
{
    let ghost ps = paths_view(paths@);
    let mut listed: Vec<ListedName> = Vec::new();
    let n = paths.len();
    assert(ps.take(0) =~= seq![]);
    assert(listed_view(listed@) =~= seq![]);
    for i in 0..n
        invariant
            n == paths@.len(),
            ps == paths_view(paths@),
            listed_songs(ps.take(i as int), target as int) == Some(listed_view(listed@)),
    {
        assert(ps.take(i + 1).drop_last() == ps.take(i as int));
        assert(ps.take(i + 1).last() == ps[i as int]);
        match &paths[i] {
            None => {},
            Some(p) => {
                match song_label(p.as_str()) {
                    Some(label) => {
                        listed.push(ListedName { label, selected: i == target });
                        assert(listed_view(listed@) =~= listed_view(listed@.drop_last()).push(
                            (label@, i == target),
                        ));
                    },
                    None => {
                        proof {
                            lemma_listing_failure_persists(ps, target as int, i + 1);
                        }
                        return None;
                    },
                }
            },
        }
    }
    assert(ps.take(n as int) == ps);
    Some(listed)
}

proof fn lemma_listing_failure_persists(ps: Seq<Option<Seq<char>>>, target: int, i: int)
    requires
        0 <= i <= ps.len(),
        listed_songs(ps.take(i), target) is None,
    ensures
        listed_songs(ps, target) is None,
    decreases ps.len(),
{
    if i < ps.len() {
        assert(ps.drop_last().take(i) == ps.take(i));
        lemma_listing_failure_persists(ps.drop_last(), target, i);
    } else {
        assert(ps.take(i) == ps);
    }
}

/// The playlist list for the folders `names` (in the folder's order): each
/// gives its label (see `playlist_label`), the one at `target` whole and
/// highlighted. `None` where a label cannot be cut.
pub open spec fn listed_playlists(names: Seq<Seq<char>>, target: int) -> Option<
    Seq<(Seq<char>, bool)>,
>
    decreases names.len(),
{
    if names.len() == 0 {
        Some(seq![])
    } else {
        let name = names.last();
        let i = names.len() - 1;
        match listed_playlists(names.drop_last(), target) {
            None => None,
            Some(prev) => if i == target {
                Some(prev.push((name, true)))
            } else if cuts_at(name, 8) {
                Some(prev.push((after_bytes(name, 8), false)))
            } else {
                None
            },
        }
    }
}

proof fn lemma_playlists_failure_persists(names: Seq<Seq<char>>, target: int, i: int)
    requires
        0 <= i <= names.len(),
        listed_playlists(names.take(i), target) is None,
    ensures
        listed_playlists(names, target) is None,
    decreases names.len(),
{
    if i < names.len() {
        assert(names.drop_last().take(i) == names.take(i));
        lemma_playlists_failure_persists(names.drop_last(), target, i);
    } else {
        assert(names.take(i) == names);
    }
}

/// The playlist list for the folders `names` (see `listed_playlists`).
pub fn playlist_entries(names: &Vec<String>, target: usize) -> (r: Option<Vec<ListedName>>)
    ensures
        match r {
            Some(v) => listed_playlists(names.deep_view(), target as int) == Some(
                listed_view(v@),
            ),
            None => listed_playlists(names.deep_view(), target as int) is None,
        },
{
    let ghost ns = names.deep_view();
    let mut listed: Vec<ListedName> = Vec::new();
    let n = names.len();
    assert(ns.take(0) =~= seq![]);
    assert(listed_view(listed@) =~= seq![]);
    for i in 0..n
        invariant
            n == names@.len(),
            ns == names.deep_view(),
            listed_playlists(ns.take(i as int), target as int) == Some(listed_view(listed@)),
    {
        assert(ns.take(i + 1).drop_last() == ns.take(i as int));
        assert(ns.take(i + 1).last() == ns[i as int]);
        assert(ns[i as int] == names@[i as int]@);
        match playlist_label(names[i].as_str(), i == target) {
            Some(label) => {
                listed.push(ListedName { label, selected: i == target });
                assert(listed_view(listed@) =~= listed_view(listed@.drop_last()).push(
                    (label@, i == target),
                ));
            },
            None => {
                proof {
                    lemma_playlists_failure_persists(ns, target as int, i + 1);
                }
                return None;
            },
        }
    }
    assert(ns.take(n as int) == ns);
    Some(listed)
}

} // verus!

verus! {

/// The address of a video's audio from what the downloader printed: when it
/// succeeded, its output without the whitespace at either end; otherwise the
/// error `Failed to download audio`.
pub fn audio_url(succeeded: bool, output: &str) -> (r: Result<String, String>)
    ensures
        succeeded ==> (r matches Ok(u) && u@ == trimmed(output@)),
        !succeeded ==> (r matches Err(m) && m@ == "Failed to download audio"@),
{
    if succeeded {
        Ok(trim_text(output))
    } else {
        Err(String::from_str("Failed to download audio"))
    }
}

} // verus!
