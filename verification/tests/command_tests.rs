use waveform::helper::get_command_args;
use waveform::wave::command::{
    after_search, assert_if_given, execute_commands, join_command, plan_download, CommandStep,
    DownloadRequest, ExecutedCommand, SearchStep,
};
use waveform::youtube::video::{Id, Snippet, YoutubeItem, YoutubeResponse};

fn words(v: &[&str]) -> Vec<String> {
    v.iter().map(|s| s.to_string()).collect()
}

fn key() -> Option<String> {
    Some(String::from("KEY"))
}

fn reply(step: CommandStep) -> (String, Option<String>) {
    match step {
        CommandStep::Reply(c) => (c.info, c.execution_process),
        CommandStep::Search(_) => panic!("expected a reply"),
    }
}

fn request(step: CommandStep) -> DownloadRequest {
    match step {
        CommandStep::Search(r) => r,
        CommandStep::Reply(c) => panic!("expected a search, got {}", c.info),
    }
}

#[test]
fn executed_command_new_keeps_fields() {
    let c: ExecutedCommand<String> = ExecutedCommand::new(String::from("i"), Some(String::from("t")));
    assert_eq!(c.info, "i");
    assert_eq!(c.execution_process, Some(String::from("t")));
}

#[test]
fn empty_command() {
    assert_eq!(reply(execute_commands(&vec![], &key())), (String::from("No command to execute"), None));
}

#[test]
fn unknown_command() {
    assert_eq!(reply(execute_commands(&words(&["play", "x"]), &key())), (String::from("Invalid command"), None));
    assert_eq!(reply(execute_commands(&words(&["Download", "x"]), &key())), (String::from("Invalid command"), None));
}

#[test]
fn flag_first_is_refused() {
    assert_eq!(
        reply(execute_commands(&words(&["download", "-rn", "x"]), &key())),
        (String::from("Can't have a flag as first arg for download!"), None)
    );
}

#[test]
fn missing_key_is_refused() {
    assert_eq!(
        reply(execute_commands(&words(&["download", "song"]), &None)),
        (String::from("No api key for youtube provided"), None)
    );
}

#[test]
fn reads_download_request() {
    let cmd = get_command_args(String::from("download never gonna -an rick astley -a greatest -gr pop -rn give up"));
    let r = request(execute_commands(&cmd, &key()));
    assert_eq!(r.name, "nevergonna");
    assert_eq!(r.artist, "rick astley");
    assert_eq!(r.album, "greatest");
    assert_eq!(r.genere, "pop");
    assert_eq!(r.name_song, "give up");
    assert_eq!(r.release_date, "");
}

#[test]
fn dash_clears_search_words_and_flag_takes_next_word() {
    let r = request(execute_commands(&words(&["download", "a", "-", "b", "-x", "-an", "-rn", "c"]), &key()));
    assert_eq!(r.name, "b-xc");
    assert_eq!(r.artist, "-rn");
    assert_eq!(r.name_song, "");
}

#[test]
fn flag_at_the_end_is_ignored() {
    let r = request(execute_commands(&words(&["download", "a", "-gr"]), &key()));
    assert_eq!(r.name, "a");
    assert_eq!(r.genere, "");
}

fn item(id: &str, title: &str) -> YoutubeItem {
    YoutubeItem {
        id: Id { video_id: id.to_string() },
        snippet: Snippet { title: title.to_string(), channel: String::new(), publish_time: String::new() },
    }
}

#[test]
fn search_error_is_shown() {
    match after_search(Err(String::from("boom"))) {
        SearchStep::Reply(c) => {
            assert_eq!(c.info, "boom");
            assert_eq!(c.execution_process, None);
        }
        _ => panic!(),
    }
}

#[test]
fn empty_search_answer() {
    match after_search(Ok(YoutubeResponse { items: vec![] })) {
        SearchStep::Reply(c) => assert_eq!(c.info, "No video found"),
        _ => panic!(),
    }
}

#[test]
fn first_video_is_fetched() {
    match after_search(Ok(YoutubeResponse { items: vec![item("id1", "First"), item("id2", "Second")] })) {
        SearchStep::Fetch { video_id, title } => {
            assert_eq!(video_id, "id1");
            assert_eq!(title, "First");
        }
        _ => panic!(),
    }
}

fn req(name: &str, name_song: &str, artist: &str) -> DownloadRequest {
    DownloadRequest {
        name: name.to_string(),
        name_song: name_song.to_string(),
        artist: artist.to_string(),
        album: String::from("x"),
        genere: String::from("rock"),
        release_date: String::new(),
    }
}

#[test]
fn download_named_after_title() {
    let cmd = words(&["download", "song", "-an", "ab"]);
    let plan = plan_download(&cmd, req("song", "", "ab"), String::from("Video Title"));
    assert_eq!(plan.file_name, "Video Title");
    assert_eq!(plan.reply.info, "download song");
    assert_eq!(plan.reply.execution_process, Some(String::from("Downloading :::: Video Title")));
    assert_eq!(plan.meta_data.artist, Some(String::from("ab")));
    assert_eq!(plan.meta_data.album, None);
    assert_eq!(plan.meta_data.genere, Some(String::from("rock")));
    assert_eq!(plan.meta_data.release_date, None);
}

#[test]
fn download_named_after_rename_flag() {
    let cmd = words(&["download", "song", "-rn", "my song"]);
    let plan = plan_download(&cmd, req("song", "my song", ""), String::from("T"));
    assert_eq!(plan.file_name, "my song");
    assert_eq!(plan.reply.info, "download song -rn my song");
    assert_eq!(plan.reply.execution_process, Some(String::from("Downloading :::: T")));
}

#[test]
fn given_values_longer_than_one_byte() {
    assert_eq!(assert_if_given(String::from("ab")), Some(String::from("ab")));
    assert_eq!(assert_if_given(String::from("a")), None);
    assert_eq!(assert_if_given(String::new()), None);
    assert_eq!(assert_if_given(String::from("\u{e9}")), Some(String::from("\u{e9}")));
}

#[test]
fn joins_words() {
    assert_eq!(join_command(&words(&[])), "");
    assert_eq!(join_command(&words(&["a"])), "a");
    assert_eq!(join_command(&words(&["a", "b c", "d"])), "a b c d");
}

#[test]
fn typed_commands_can_be_run() {
    for line in ["", "download x", "download -rn a", "play", "download  never   gonna -an a b"] {
        let cmd = get_command_args(String::from(line));
        let _ = execute_commands(&cmd, &key());
    }
}
