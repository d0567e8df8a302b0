//! Running a typed command. The only command is `download`: it searches the
//! video service for a song, finds the address of its audio and downloads
//! it. Those three steps are outside work; the decisions between them are
//! the functions here, each taking what the previous outside step gave.
use vstd::prelude::*;
use vstd::utf8::encode_utf8;

use crate::helper::{command_args, is_flag, is_flag_text, lemma_command_args_nonempty};
use crate::music::song::MetaData;
use crate::text::{join_words, longer_than_one_byte, same_text};
use crate::youtube::video::{YoutubeItem, YoutubeResponse};

verus! {

/// What running a command gives: the text shown in the command history, and
/// the task it started, if any.
pub struct ExecutedCommand<T> {
    pub info: String,
    pub execution_process: Option<T>,
}

impl<T> ExecutedCommand<T> {
    /// A result with the given history text and task.
    pub fn new(info: String, execution_process: Option<T>) -> (c: Self)
        ensures
            c.info == info,
            c.execution_process == execution_process,
    {
        ExecutedCommand { info, execution_process }
    }
}

/// A value that is only kept when its text is longer than one byte.
pub open spec fn given_text(s: Seq<char>) -> Option<Seq<char>> {
    if encode_utf8(s).len() > 1 {
        Some(s)
    } else {
        None
    }
}

/// The text held by an optional string.
pub open spec fn opt_text(s: Option<String>) -> Option<Seq<char>> {
    match s {
        Some(t) => Some(t@),
        None => None,
    }
}

/// `Some(s)` when `s` is longer than one byte, else `None`.
pub fn assert_if_given(s: String) -> (r: Option<String>)
    ensures
        r == (if encode_utf8(s@).len() > 1 {
            Some(s)
        } else {
            None
        }),
{
    if longer_than_one_byte(s.as_str()) {
        Some(s)
    } else {
        None
    }
}

/// What a `download` command asks for: the words to search for, and the
/// values given after its flags.
pub struct DownloadRequest {
    pub name: String,
    pub name_song: String,
    pub artist: String,
    pub album: String,
    pub genere: String,
    pub release_date: String,
}

/// A download request as text.
pub struct RequestView {
    pub name: Seq<char>,
    pub name_song: Seq<char>,
    pub artist: Seq<char>,
    pub album: Seq<char>,
    pub genere: Seq<char>,
    pub release_date: Seq<char>,
}

impl View for DownloadRequest {
    type V = RequestView;

    open spec fn view(&self) -> RequestView {
        RequestView {
            name: self.name@,
            name_song: self.name_song@,
            artist: self.artist@,
            album: self.album@,
            genere: self.genere@,
            release_date: self.release_date@,
        }
    }
}

/// The field that the word after a flag fills: 0 for none, 1 for the file
/// name (`-rn`), 2 for the artist (`-an`), 3 for the album (`-a`), 4 for
/// the genre (`-gr`).
pub open spec fn flag_field(word: Seq<char>) -> nat {
    if word == "-rn"@ {
        1
    } else if word == "-an"@ {
        2
    } else if word == "-a"@ {
        3
    } else if word == "-gr"@ {
        4
    } else {
        0
    }
}

/// The request read so far, and the field that the next word fills.
pub struct RequestProgress {
    pub request: RequestView,
    pub expecting: nat,
}

/// Reading one more word of a `download` command: a word after a flag is
/// added to that flag's field; `-` clears the search words; a known flag
/// sets the field that the next word fills; any other word is added to the
/// search words (with no separator).
pub open spec fn request_step(p: RequestProgress, word: Seq<char>) -> RequestProgress {
    let r = p.request;
    if p.expecting == 1 {
        RequestProgress { request: RequestView { name_song: r.name_song + word, ..r }, expecting: 0 }
    } else if p.expecting == 2 {
        RequestProgress { request: RequestView { artist: r.artist + word, ..r }, expecting: 0 }
    } else if p.expecting == 3 {
        RequestProgress { request: RequestView { album: r.album + word, ..r }, expecting: 0 }
    } else if p.expecting == 4 {
        RequestProgress { request: RequestView { genere: r.genere + word, ..r }, expecting: 0 }
    } else if word == "-"@ {
        RequestProgress { request: RequestView { name: seq![], ..r }, expecting: 0 }
    } else if flag_field(word) != 0 {
        RequestProgress { request: r, expecting: flag_field(word) }
    } else {
        RequestProgress { request: RequestView { name: r.name + word, ..r }, expecting: 0 }
    }
}

/// The progress after reading `words` from an empty request.
pub open spec fn request_progress(words: Seq<Seq<char>>) -> RequestProgress
    decreases words.len(),
{
    if words.len() == 0 {
        RequestProgress {
            request: RequestView {
                name: seq![],
                name_song: seq![],
                artist: seq![],
                album: seq![],
                genere: seq![],
                release_date: seq![],
            },
            expecting: 0,
        }
    } else {
        request_step(request_progress(words.drop_last()), words.last())
    }
}

/// The request that the words after `download` make.
pub open spec fn download_request(words: Seq<Seq<char>>) -> RequestView {
    request_progress(words).request
}

/// What to do after reading a command: answer it at once, or search the
/// video service for the requested song.
pub enum CommandStep {
    Reply(ExecutedCommand<String>),
    Search(DownloadRequest),
}

/// Whether `step` answers with the text `text` and starts no task.
pub open spec fn replies(step: CommandStep, text: Seq<char>) -> bool {
    step matches CommandStep::Reply(c) && c.info@ == text && c.execution_process is None
}

/// Whether a command can be read without failing: a `download` command
/// has a first argument, and that argument is not empty.
pub open spec fn command_is_complete(commands: Seq<Seq<char>>) -> bool {
    commands.len() > 0 && commands[0] == "download"@ ==> commands.len() >= 2 && commands[1].len()
        > 0
}

/// Reads a command (as `get_command_args` splits it). An empty command, an
/// unknown command, a `download` whose first argument is a flag and a
/// `download` without a key for the video service are answered at once;
/// any other `download` asks for a search.
pub fn execute_commands(commands: &Vec<String>, api_key: &Option<String>) -> (step: CommandStep)
    requires
        command_is_complete(commands.deep_view()),
    ensures
        commands@.len() == 0 ==> replies(step, "No command to execute"@),
        commands@.len() > 0 && commands@[0]@ != "download"@ ==> replies(step, "Invalid command"@),
        commands@.len() > 0 && commands@[0]@ == "download"@ ==> if is_flag_text(commands@[1]@) {
            replies(step, "Can't have a flag as first arg for download!"@)
        } else if api_key is None {
            replies(step, "No api key for youtube provided"@)
        } else {
            step matches CommandStep::Search(r) && r@ == download_request(
                commands.deep_view().drop_first(),
            )
        },
{
    let ghost cs = commands.deep_view();
    if commands.len() == 0 {
        return CommandStep::Reply(
            ExecutedCommand::new(String::from_str("No command to execute"), None),
        );
    }
    assert(cs[0] == commands@[0]@);
    if !same_text(commands[0].as_str(), "download") {
        return CommandStep::Reply(ExecutedCommand::new(String::from_str("Invalid command"), None));
    }
    assert(cs[1] == commands@[1]@);
    if is_flag(commands[1].as_str()) {
        return CommandStep::Reply(
            ExecutedCommand::new(
                String::from_str("Can't have a flag as first arg for download!"),
                None,
            ),
        );
    }
    if api_key.is_none() {
        return CommandStep::Reply(
            ExecutedCommand::new(String::from_str("No api key for youtube provided"), None),
        );
    }
    let mut name = String::new();
    let mut name_song = String::new();
    let mut artist = String::new();
    let mut album = String::new();
    let mut genere = String::new();
    let release_date = String::new();
    let mut flag: u8 = 0;
    let n = commands.len();
    let ghost words = cs.drop_first();
    assert(words.take(0) =~= seq![]);
    assert(name@ =~= seq![]);
    assert(name_song@ =~= seq![]);
    assert(artist@ =~= seq![]);
    assert(album@ =~= seq![]);
    assert(genere@ =~= seq![]);
    assert(release_date@ =~= seq![]);
    for i in 1..n
        invariant
            n == commands@.len(),
            cs == commands.deep_view(),
            words == cs.drop_first(),
            release_date@ == Seq::<char>::empty(),
            request_progress(words.take(i - 1)) == (RequestProgress {
                request: RequestView {
                    name: name@,
                    name_song: name_song@,
                    artist: artist@,
                    album: album@,
                    genere: genere@,
                    release_date: release_date@,
                },
                expecting: flag as nat,
            }),
    {
        let word = commands[i].as_str();
        let ghost before = request_progress(words.take(i - 1));
        proof {
            assert(words.take(i as int).drop_last() == words.take(i - 1));
            assert(words.take(i as int).last() == words[i - 1]);
            assert(words[i - 1] == commands@[i as int]@);
        }
        if flag == 1 {
            name_song.append(word);
            flag = 0;
        } else if flag == 2 {
            artist.append(word);
            flag = 0;
        } else if flag == 3 {
            album.append(word);
            flag = 0;
        } else if flag == 4 {
            genere.append(word);
            flag = 0;
        } else if same_text(word, "-") {
            name = String::new();
            assert(name@ =~= seq![]);
        } else if same_text(word, "-rn") {
            flag = 1;
        } else if same_text(word, "-an") {
            flag = 2;
        } else if same_text(word, "-a") {
            flag = 3;
        } else if same_text(word, "-gr") {
            flag = 4;
        } else {
            name.append(word);
        }
        assert(request_progress(words.take(i as int)) == (RequestProgress {
            request: RequestView {
                name: name@,
                name_song: name_song@,
                artist: artist@,
                album: album@,
                genere: genere@,
                release_date: release_date@,
            },
            expecting: flag as nat,
        }));
    }
    assert(words.take(n - 1) == words);
    CommandStep::Search(DownloadRequest { name, name_song, artist, album, genere, release_date })
}

/// What to do after the search: answer at once, or find the audio of the
/// video found.
pub enum SearchStep {
    Reply(ExecutedCommand<String>),
    Fetch { video_id: String, title: String },
}

/// Decides on the answer of the search: its error is shown, an empty
/// answer is `No video found`, else the first video found is fetched.
pub fn after_search(found: Result<YoutubeResponse<YoutubeItem>, String>) -> (step: SearchStep)
    ensures
        match found {
            Err(e) => step matches SearchStep::Reply(c) && c.info == e && c.execution_process is None,
            Ok(resp) => if resp.items@.len() == 0 {
                step matches SearchStep::Reply(c) && c.info@ == "No video found"@
                    && c.execution_process is None
            } else {
                step matches SearchStep::Fetch { video_id, title } && video_id@
                    == resp.items@[0].id.video_id@ && title@ == resp.items@[0].snippet.title@
            },
        },
{
    match found {
        Err(e) => SearchStep::Reply(ExecutedCommand::new(e, None)),
        Ok(resp) => {
            if resp.items.len() == 0 {
                SearchStep::Reply(ExecutedCommand::new(String::from_str("No video found"), None))
            } else {
                let first = &resp.items[0];
                SearchStep::Fetch {
                    video_id: first.id.video_id.clone(),
                    title: first.snippet.title.clone(),
                }
            }
        },
    }
}

/// Joins the words of a command by single spaces.
pub fn join_command(words: &Vec<String>) -> (r: String)
    ensures
        r@ == join_words(words.deep_view()),
{
    let ghost ws = words.deep_view();
    let mut r = String::new();
    let n = words.len();
    assert(ws.take(0) =~= seq![]);
    assert(r@ =~= seq![]);
    for i in 0..n
        invariant
            n == words@.len(),
            ws == words.deep_view(),
            r@ == join_words(ws.take(i as int)),
    {
        assert(ws.take(i + 1).drop_last() == ws.take(i as int));
        assert(ws[i as int] == words@[i as int]@);
        if i > 0 {
            proof {
                reveal_strlit(" ");
            }
            r.append(" ");
        } else {
            assert(ws.take(1) == seq![ws[0]]);
            assert(r@ + ws[0] =~= ws[0]);
        }
        r.append(words[i].as_str());
    }
    assert(ws.take(n as int) == ws);
    r
}

/// The download to start and the answer to show for a request once the
/// video is known.
pub struct DownloadPlan {
    pub file_name: String,
    pub meta_data: MetaData,
    pub reply: ExecutedCommand<String>,
}

/// Decides on a download: the file is named after the `-rn` value when one
/// was given, else after the video's title, and the answer is then the
/// whole command or `download` and the search words; the metadata keeps
/// the values given after flags that are longer than one byte; the task is
/// `Downloading :::: ` and the title.
pub fn plan_download(commands: &Vec<String>, request: DownloadRequest, title: String) -> (plan:
    DownloadPlan)
    ensures
        plan.reply.execution_process matches Some(t) && t@ == "Downloading :::: "@ + title@,
        request.name_song@.len() > 0 ==> plan.file_name@ == request.name_song@
            && plan.reply.info@ == join_words(commands.deep_view()),
        request.name_song@.len() == 0 ==> plan.file_name@ == title@ && plan.reply.info@
            == "download "@ + request.name@,
        opt_text(plan.meta_data.artist) == given_text(request.artist@),
        opt_text(plan.meta_data.album) == given_text(request.album@),
        opt_text(plan.meta_data.genere) == given_text(request.genere@),
        opt_text(plan.meta_data.release_date) == given_text(request.release_date@),
{
    let command = join_command(commands);
    let meta_data = MetaData::new(
        assert_if_given(request.artist),
        assert_if_given(request.album),
        assert_if_given(request.genere),
        None,
        assert_if_given(request.release_date),
    );
    let mut task = String::from_str("Downloading :::: ");
    task.append(title.as_str());
    if request.name_song.as_str().unicode_len() >= 1 {
        DownloadPlan {
            file_name: request.name_song,
            meta_data,
            reply: ExecutedCommand::new(command, Some(task)),
        }
    } else {
        let mut info = String::from_str("download ");
        info.append(request.name.as_str());
        DownloadPlan { file_name: title, meta_data, reply: ExecutedCommand::new(info, Some(task)) }
    }
}

} // verus!

verus! {

/// What the command box sends can always be read by `execute_commands`,
/// except the lone word `download`, which has no first argument.
pub proof fn lemma_typed_commands_are_complete(line: Seq<char>)
    requires
        !(command_args(line).len() == 1 && command_args(line)[0] == "download"@),
    ensures
        command_is_complete(command_args(line)),
{
    lemma_command_args_nonempty(line);
    let args = command_args(line);
    if args.len() >= 2 {
        assert(args[1].len() > 0);
    }
}

} // verus!

verus! {

/// The flag that fills field `i` of a download request: `-rn` the file
/// name, `-an` the artist, `-a` the album, `-gr` the genre.
pub open spec fn request_flag(i: int) -> Seq<char> {
    if i == 1 {
        "-rn"@
    } else if i == 2 {
        "-an"@
    } else if i == 3 {
        "-a"@
    } else {
        "-gr"@
    }
}

/// The fields of a download request, in order: the search words, the file
/// name, the artist, the album, the genre and the release date.
pub open spec fn request_fields(r: RequestView) -> Seq<Seq<char>> {
    seq![r.name, r.name_song, r.artist, r.album, r.genere, r.release_date]
}

/// In a `download` command, a flag followed by a word adds that word to the
/// flag's own field (`-rn` the file name, `-an` the artist, `-a` the album,
/// `-gr` the genre) and changes no other field; a word that is neither a
/// flag nor `-` and follows no flag is added to the search words.
pub proof fn lemma_flag_fills_its_field(w: Seq<Seq<char>>, i: int, v: Seq<char>)
    requires
        request_progress(w).expecting == 0,
        1 <= i <= 4,
    ensures
        ({
            let before = request_fields(download_request(w));
            let after = download_request(w.push(request_flag(i)).push(v));
            &&& request_fields(after) == before.update(i, before[i] + v)
            &&& request_progress(w.push(request_flag(i)).push(v)).expecting == 0
        }),
        v != "-"@ && flag_field(v) == 0 ==> request_fields(download_request(w.push(v)))
            == request_fields(download_request(w)).update(
            0,
            download_request(w).name + v,
        ),
{
    reveal_strlit("-rn");
    reveal_strlit("-an");
    reveal_strlit("-a");
    reveal_strlit("-gr");
    reveal_strlit("-");
    let rn = "-rn"@;
    let an = "-an"@;
    let gr = "-gr"@;
    assert(rn[1] != an[1] && rn[1] != gr[1] && an[1] != gr[1]);
    assert(rn != an && rn != gr && an != gr);
    let f = request_flag(i);
    let w1 = w.push(f);
    let w2 = w1.push(v);
    assert(w1.drop_last() =~= w);
    assert(w2.drop_last() =~= w1);
    assert(w1.last() == f);
    assert(w2.last() == v);
    assert(f != "-"@);
    assert(flag_field(f) == i);
    assert(request_progress(w1).expecting == i);
    assert(request_progress(w1).request == download_request(w));
    let before = request_fields(download_request(w));
    assert(request_fields(download_request(w2)) =~= before.update(i, before[i] + v));
    assert(w.push(v).drop_last() =~= w);
    if v != "-"@ && flag_field(v) == 0 {
        assert(request_fields(download_request(w.push(v))) =~= request_fields(
            download_request(w),
        ).update(0, download_request(w).name + v));
    }
}

} // verus!
