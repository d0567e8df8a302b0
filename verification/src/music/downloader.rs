//! Names of downloaded files and the report of a finished download.
use vstd::prelude::*;

use crate::text::{chars_of, push_char};

verus! {

/// `name` with every `/` replaced by `-`, so that it names a file and not
/// a directory.
pub open spec fn safe_file_name(name: Seq<char>) -> Seq<char> {
    Seq::new(name.len(), |i: int| if name[i] == '/' { '-' } else { name[i] })
}

/// `file_name` with every `/` replaced by `-`.
pub fn sanitize_file_name(file_name: &str) -> (r: String)
    ensures
        r@ == safe_file_name(file_name@),
{
    let cs = chars_of(file_name);
    let n = cs.len();
    let mut r = String::new();
    for i in 0..n
        invariant
            n == file_name@.len(),
            cs@ == file_name@,
            r@ == safe_file_name(file_name@).take(i as int),
    {
        let c = cs[i];
        if c == '/' {
            push_char(&mut r, '-');
        } else {
            push_char(&mut r, c);
        }
        assert(safe_file_name(file_name@).take(i + 1) == safe_file_name(file_name@).take(
            i as int,
        ).push(safe_file_name(file_name@)[i as int]));
    }
    assert(safe_file_name(file_name@).take(n as int) == safe_file_name(file_name@));
    r
}

/// Where the downloader writes a song called `file_name`: `songs/` and the
/// name with `/` replaced by `-`.
pub fn download_output_path(file_name: &str) -> (r: String)
    ensures
        r@ == "songs/"@ + safe_file_name(file_name@),
{
    let mut r = String::from_str("songs/");
    let safe = sanitize_file_name(file_name);
    r.append(safe.as_str());
    r
}

/// The file whose tag receives the metadata of a song called `file_name`:
/// `songs/`, the name as given, and `.mp3`.
pub fn tagged_file_path(file_name: &str) -> (r: String)
    ensures
        r@ == "songs/"@ + file_name@ + ".mp3"@,
{
    let mut r = String::from_str("songs/");
    r.append(file_name);
    r.append(".mp3");
    r
}

/// The task message sent when a download ends: `Download Completed: `
/// followed by the file's name, or by the error's text.
pub fn download_report(outcome: Result<String, String>) -> (r: String)
    ensures
        r@ == "Download Completed: "@ + match outcome {
            Ok(name) => name@,
            Err(e) => e@,
        },
{
    let mut r = String::from_str("Download Completed: ");
    match outcome {
        Ok(name) => r.append(name.as_str()),
        Err(e) => r.append(e.as_str()),
    }
    r
}

} // verus!

verus! {

/// A sanitized file name has no `/` and as many characters as the name.
pub proof fn lemma_safe_file_name(name: Seq<char>)
    ensures
        safe_file_name(name).len() == name.len(),
        forall|i: int| 0 <= i < name.len() ==> #[trigger] safe_file_name(name)[i] != '/',
{
}

} // verus!
