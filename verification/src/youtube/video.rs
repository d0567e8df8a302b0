//! Search results of the video service, as plain records.
use vstd::prelude::*;

use crate::text::{decimal_repr, decimal_string};
use crate::wave::WaveErr;

verus! {

/// One video found by a search.
#[derive(Debug)]
pub struct YoutubeItem {
    pub id: Id,
    pub snippet: Snippet,
}

/// The identifier of a video.
#[derive(Debug)]
pub struct Id {
    pub video_id: String,
}

/// What a search tells of a video.
#[derive(Debug)]
pub struct Snippet {
    pub title: String,
    pub channel: String,
    pub publish_time: String,
}

/// The answer of the video service: a list of items.
#[derive(Debug)]
pub struct YoutubeResponse<T> {
    pub items: Vec<T>,
}

/// The details of one video.
pub struct DetailItem {
    pub content_details: ContentDetails,
}

/// The length of a video, as the service writes it.
pub struct ContentDetails {
    pub duration: String,
}

} // verus!

verus! {

/// The query of a search for `query`: a video search returning snippets,
/// with the key and the number of results. Without a key there is no
/// search, and the error explains that no key was given.
pub fn search_parameters(query: &str, api_key: &Option<String>, max_results: u64) -> (r: Result<
    Vec<(String, String)>,
    WaveErr,
>)
    ensures
        api_key is None ==> (r matches Err(e) && e.log@ == "No api key provided!"@),
        api_key matches Some(k) ==> (r matches Ok(ps) && ps@.len() == 5 && ps@[0].0@ == "part"@
            && ps@[0].1@ == "snippet"@ && ps@[1].0@ == "q"@ && ps@[1].1@ == query@ && ps@[2].0@
            == "key"@ && ps@[2].1@ == k@ && ps@[3].0@ == "type"@ && ps@[3].1@ == "video"@
            && ps@[4].0@ == "maxResults"@ && ps@[4].1@ == decimal_repr(max_results as nat)),
{
    match api_key {
        None => Err(WaveErr::new(String::from_str("No api key provided!"))),
        Some(key) => {
            let mut ps: Vec<(String, String)> = Vec::new();
            ps.push((String::from_str("part"), String::from_str("snippet")));
            ps.push((String::from_str("q"), query.to_owned()));
            ps.push((String::from_str("key"), key.clone()));
            ps.push((String::from_str("type"), String::from_str("video")));
            ps.push((String::from_str("maxResults"), decimal_string(max_results)));
            Ok(ps)
        },
    }
}

/// The address that asks the video service for the details of a video.
pub fn video_details_url(video_id: &str, api_key: &str) -> (url: String)
    ensures
        url@ == "https://www.googleapis.com/youtube/v3/videos?part=contentDetails&id="@ + video_id@
            + "&key="@ + api_key@,
{
    let mut url = String::from_str(
        "https://www.googleapis.com/youtube/v3/videos?part=contentDetails&id=",
    );
    url.append(video_id);
    url.append("&key=");
    url.append(api_key);
    url
}

} // verus!
