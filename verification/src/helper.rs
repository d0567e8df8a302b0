//! Reading what the user types: command lines, colour settings and the
//! lines of a text picture.
use vstd::prelude::*;

use crate::text::{
    decimal_repr, is_digit, is_unicode_whitespace, join_with, join_words, lemma_decimal_repr, lemma_join_push,
    lemma_split_on_join, lemma_split_on_last_piece, lemma_split_on_rejoin,
    lemma_split_whitespace_of_joined,
    lemma_split_on_nonempty, lemma_split_on_single, lemma_split_whitespace_pieces, parses_unsigned,
    parse_unsigned, split_on, split_on_char, split_whitespace, split_whitespace_words,
    unsigned_digits, unsigned_value, without_last_char,
};

verus! {

/// Whether a word is a flag: it begins with `-`.
pub open spec fn is_flag_text(t: Seq<char>) -> bool {
    t.len() > 0 && t[0] == '-'
}

/// Whether a word is a flag: it begins with `-`.
pub fn is_flag(x: &str) -> (r: bool)
    requires
        x@.len() > 0,
    ensures
        r == is_flag_text(x@),
{
    x.get_char(0) == '-'
}

/// The arguments gathered so far while reading the words of a command line:
/// the finished arguments, the words read since the last flag (each followed
/// by a space), and whether a flag has been seen.
pub struct ArgsProgress {
    pub args: Seq<Seq<char>>,
    pub pending: Seq<char>,
    pub after_flag: bool,
}

/// `args` with the pending words added as one argument (without the
/// trailing space), if there are any.
pub open spec fn flush_pending(args: Seq<Seq<char>>, pending: Seq<char>) -> Seq<Seq<char>> {
    if pending.len() > 0 {
        args.push(pending.drop_last())
    } else {
        args
    }
}

/// Reading one more word: a flag closes the pending group and stands as an
/// argument of its own; after the first flag the other words are gathered,
/// space-separated, into the group that follows it; before it every word
/// is an argument of its own.
pub open spec fn args_step(p: ArgsProgress, word: Seq<char>) -> ArgsProgress {
    if is_flag_text(word) {
        ArgsProgress {
            args: flush_pending(p.args, p.pending).push(word),
            pending: seq![],
            after_flag: true,
        }
    } else if p.after_flag {
        ArgsProgress { args: p.args, pending: p.pending + word.push(' '), after_flag: true }
    } else {
        ArgsProgress { args: p.args.push(word), pending: p.pending, after_flag: false }
    }
}

/// The progress after reading all of `words`, left to right.
pub open spec fn args_progress(words: Seq<Seq<char>>) -> ArgsProgress
    decreases words.len(),
{
    if words.len() == 0 {
        ArgsProgress { args: seq![], pending: seq![], after_flag: false }
    } else {
        args_step(args_progress(words.drop_last()), words.last())
    }
}

/// The arguments of a command line: its whitespace-separated words, where
/// each flag is followed by one argument made of the words up to the next
/// flag, joined by single spaces.
pub open spec fn command_args(line: Seq<char>) -> Seq<Seq<char>> {
    let p = args_progress(split_whitespace(line));
    flush_pending(p.args, p.pending)
}

/// Splits a command line into its arguments (see `command_args`).
pub fn get_command_args(s: String) -> (command: Vec<String>)
    ensures
        command.deep_view() == command_args(s@),
{
    let words = split_whitespace_words(s.as_str());
    let ghost ws = words.deep_view();
    proof {
        lemma_split_whitespace_pieces(s@);
    }
    let mut command: Vec<String> = Vec::new();
    let mut idk = String::new();
    let mut found_flag = false;
    let n = words.len();
    assert(ws.take(0) =~= seq![]);
    assert(command.deep_view() =~= seq![]);
    assert(idk@ =~= seq![]);
    for i in 0..n
        invariant
            n == words@.len(),
            ws == words.deep_view(),
            ws == split_whitespace(s@),
            forall|j: int| 0 <= j < ws.len() ==> #[trigger] ws[j].len() > 0,
            args_progress(ws.take(i as int)) == (ArgsProgress {
                args: command.deep_view(),
                pending: idk@,
                after_flag: found_flag,
            }),
    {
        let word = &words[i];
        let ghost before = args_progress(ws.take(i as int));
        assert(word@ == ws[i as int]);
        assert(ws.take(i + 1).drop_last() == ws.take(i as int));
        assert(ws.take(i + 1).last() == ws[i as int]);
        if is_flag(word.as_str()) {
            if idk.as_str().unicode_len() > 0 {
                let ok = without_last_char(&idk);
                command.push(ok);
            }
            idk = String::new();
            found_flag = true;
            command.push(word.clone());
            assert(command.deep_view() =~= flush_pending(before.args, before.pending).push(
                ws[i as int],
            ));
            assert(idk@ =~= seq![]);
        } else if found_flag {
            idk.append(word.as_str());
            proof {
                reveal_strlit(" ");
            }
            idk.append(" ");
            assert(idk@ =~= before.pending + ws[i as int].push(' '));
        } else {
            command.push(word.clone());
            assert(command.deep_view() =~= before.args.push(ws[i as int]));
        }
        assert(args_progress(ws.take(i + 1)) == (ArgsProgress {
            args: command.deep_view(),
            pending: idk@,
            after_flag: found_flag,
        }));
    }
    assert(ws.take(n as int) == ws);
    if idk.as_str().unicode_len() > 0 {
        let ok = without_last_char(&idk);
        command.push(ok);
    }
    command
}

/// The pieces of a colour setting: its comma-separated parts.
pub open spec fn rgb_parts(s: Seq<char>) -> Seq<Seq<char>> {
    split_on(s, ',')
}

/// Whether a colour setting is accepted: at most three comma-separated
/// parts, each a number from 0 to 255.
pub open spec fn rgb_is_valid(s: Seq<char>) -> bool {
    let parts = rgb_parts(s);
    &&& parts.len() <= 3
    &&& forall|i: int| 0 <= i < parts.len() ==> parses_unsigned(#[trigger] parts[i], 255)
}

/// Channel `k` of a colour setting: the number in part `k`, or 255 where
/// the setting has fewer parts.
pub open spec fn rgb_channel(s: Seq<char>, k: int) -> u8 {
    let parts = rgb_parts(s);
    if k < parts.len() {
        unsigned_value(parts[k]) as u8
    } else {
        255
    }
}

/// The colour that a setting denotes.
pub open spec fn rgb_value(s: Seq<char>) -> Seq<u8> {
    seq![rgb_channel(s, 0), rgb_channel(s, 1), rgb_channel(s, 2)]
}

/// Reads a colour setting such as `12,200,7`, or `None` where it is not
/// accepted.
pub fn parse_rgb(s: &str) -> (r: Option<[u8; 3]>)
    ensures
        r is Some <==> rgb_is_valid(s@),
        r matches Some(c) ==> c@ == rgb_value(s@),
{
    let parts = split_on_char(s, ',');
    let ghost ps = parts.deep_view();
    assert(ps == rgb_parts(s@));
    if parts.len() > 3 {
        return None;
    }
    let mut color: [u8; 3] = [255, 255, 255];
    let n = parts.len();
    for i in 0..n
        invariant
            n == parts@.len() <= 3,
            ps == parts.deep_view(),
            ps == rgb_parts(s@),
            forall|j: int| 0 <= j < i ==> parses_unsigned(#[trigger] ps[j], 255),
            forall|k: int| 0 <= k < 3 ==> color@[k] == (if k < i { unsigned_value(ps[k]) as u8 } else { 255u8 }),
    {
        assert(parts[i as int]@ == ps[i as int]);
        match parse_unsigned(parts[i].as_str(), 255) {
            Some(v) => {
                color[i] = v as u8;
            },
            None => {
                return None;
            },
        }
    }
    assert(color@ =~= rgb_value(s@));
    Some(color)
}

/// Reads a colour setting such as `12,200,7`; parts that are missing are 255.
pub fn rgb_converter(s: &str) -> (color: [u8; 3])
    requires
        rgb_is_valid(s@),
    ensures
        color@ == rgb_value(s@),
{
    match parse_rgb(s) {
        Some(c) => c,
        None => [255, 255, 255],
    }
}

/// The lines of a text picture: its pieces between line breaks, where a
/// last piece that is empty is left out.
pub open spec fn text_lines(s: Seq<char>) -> Seq<Seq<char>> {
    let pieces = split_on(s, '\n');
    if pieces.last().len() > 0 {
        pieces
    } else {
        pieces.drop_last()
    }
}

/// Splits a text picture into its lines (see `text_lines`).
pub fn ascii_lines(ascii: &str) -> (lines: Vec<String>)
    ensures
        lines.deep_view() == text_lines(ascii@),
{
    let mut pieces = split_on_char(ascii, '\n');
    proof {
        lemma_split_on_nonempty(ascii@, '\n');
    }
    let last = pieces.len() - 1;
    if pieces[last].as_str().unicode_len() == 0 {
        pieces.pop();
        assert(pieces.deep_view() =~= split_on(ascii@, '\n').drop_last());
    }
    pieces
}

} // verus!

verus! {

/// Grouping never makes an empty argument, and pending words always end in
/// a space after at least one character.
proof fn lemma_progress_nonempty(words: Seq<Seq<char>>)
    requires
        forall|j: int| 0 <= j < words.len() ==> #[trigger] words[j].len() > 0,
    ensures
        forall|i: int|
            0 <= i < args_progress(words).args.len() ==> #[trigger] args_progress(
                words,
            ).args[i].len() > 0,
        args_progress(words).pending.len() == 0 || args_progress(words).pending.len() >= 2,
    decreases words.len(),
{
    if words.len() > 0 {
        let rest = words.drop_last();
        assert forall|j: int| 0 <= j < rest.len() implies #[trigger] rest[j].len() > 0 by {
            assert(rest[j] == words[j]);
        }
        lemma_progress_nonempty(rest);
        assert(words.last() == words[words.len() - 1]);
    }
}

/// The arguments of a command line are never empty.
pub proof fn lemma_command_args_nonempty(line: Seq<char>)
    ensures
        forall|i: int|
            0 <= i < command_args(line).len() ==> #[trigger] command_args(line)[i].len() > 0,
{
    lemma_split_whitespace_pieces(line);
    lemma_progress_nonempty(split_whitespace(line));
}

proof fn lemma_progress_without_flags(words: Seq<Seq<char>>)
    requires
        forall|j: int| 0 <= j < words.len() ==> !is_flag_text(#[trigger] words[j]),
    ensures
        args_progress(words) == (ArgsProgress { args: words, pending: seq![], after_flag: false }),
    decreases words.len(),
{
    if words.len() == 0 {
        assert(words =~= seq![]);
    } else {
        let rest = words.drop_last();
        assert forall|j: int| 0 <= j < rest.len() implies !is_flag_text(#[trigger] rest[j]) by {
            assert(rest[j] == words[j]);
        }
        lemma_progress_without_flags(rest);
        assert(words.last() == words[words.len() - 1]);
        assert(rest.push(words.last()) =~= words);
    }
}

/// A command line without flags has its words as arguments.
pub proof fn lemma_command_args_without_flags(line: Seq<char>)
    requires
        forall|j: int|
            0 <= j < split_whitespace(line).len() ==> !is_flag_text(
                #[trigger] split_whitespace(line)[j],
            ),
    ensures
        command_args(line) == split_whitespace(line),
{
    lemma_progress_without_flags(split_whitespace(line));
}

proof fn lemma_progress_keeps_first(words: Seq<Seq<char>>)
    requires
        words.len() > 0,
    ensures
        args_progress(words).args.len() > 0,
        args_progress(words).args[0] == words[0],
    decreases words.len(),
{
    let rest = words.drop_last();
    if rest.len() == 0 {
        assert(flush_pending(seq![], seq![]) == Seq::<Seq<char>>::empty());
    } else {
        lemma_progress_keeps_first(rest);
        assert(rest[0] == words[0]);
    }
}

/// The first word of a command line, its command's name, is always its
/// first argument as typed.
pub proof fn lemma_command_name_is_first_word(line: Seq<char>)
    requires
        split_whitespace(line).len() > 0,
    ensures
        command_args(line).len() > 0,
        command_args(line)[0] == split_whitespace(line)[0],
{
    lemma_progress_keeps_first(split_whitespace(line));
}

} // verus!

verus! {

/// A number's decimal text has no comma and is read back as the number.
proof fn lemma_channel_text(n: nat)
    requires
        n <= 255,
    ensures
        forall|i: int| 0 <= i < decimal_repr(n).len() ==> #[trigger] decimal_repr(n)[i] != ',',
        parses_unsigned(decimal_repr(n), 255),
        unsigned_value(decimal_repr(n)) == n,
{
    lemma_decimal_repr(n);
    let r = decimal_repr(n);
    assert(is_digit(r[0]));
    assert(unsigned_digits(r) == r);
    assert forall|i: int| 0 <= i < r.len() implies #[trigger] r[i] != ',' by {
        assert(is_digit(r[i]));
    }
}

/// Reading a colour setting gives back the colour whose channels were
/// written in decimal and separated by commas (what `decimal_string` writes
/// is what `rgb_converter` reads).
pub proof fn lemma_rgb_round_trip(r: u8, g: u8, b: u8)
    ensures
        rgb_is_valid(decimal_repr(r as nat) + seq![','] + decimal_repr(g as nat) + seq![',']
            + decimal_repr(b as nat)),
        rgb_value(decimal_repr(r as nat) + seq![','] + decimal_repr(g as nat) + seq![',']
            + decimal_repr(b as nat)) == seq![r, g, b],
{
    let rs = decimal_repr(r as nat);
    let gs = decimal_repr(g as nat);
    let bs = decimal_repr(b as nat);
    lemma_channel_text(r as nat);
    lemma_channel_text(g as nat);
    lemma_channel_text(b as nat);
    lemma_split_on_single(rs, ',');
    lemma_split_on_single(gs, ',');
    lemma_split_on_single(bs, ',');
    lemma_split_on_join(gs, bs, ',');
    let tail = gs + seq![','] + bs;
    lemma_split_on_join(rs, tail, ',');
    let s = rs + seq![','] + gs + seq![','] + bs;
    assert(s =~= rs + seq![','] + tail);
    let parts = rgb_parts(s);
    assert(parts =~= seq![rs, gs, bs]);
    assert(rgb_value(s) =~= seq![r, g, b]);
}

} // verus!

verus! {

/// Facts about grouping that joining needs: the pending words end in a
/// space and only follow a flag, a flag leaves an argument behind, and the
/// arguments joined by spaces are the words read joined by spaces.
proof fn lemma_progress_join(words: Seq<Seq<char>>)
    requires
        forall|j: int| 0 <= j < words.len() ==> #[trigger] words[j].len() > 0,
    ensures
        ({
            let p = args_progress(words);
            &&& p.pending.len() > 0 ==> p.pending.last() == ' ' && p.after_flag
            &&& p.after_flag ==> p.args.len() > 0
            &&& (flush_pending(p.args, p.pending).len() == 0 <==> words.len() == 0)
            &&& join_words(flush_pending(p.args, p.pending)) == join_words(words)
        }),
    decreases words.len(),
{
    if words.len() > 0 {
        let rest = words.drop_last();
        let w = words.last();
        assert(w == words[words.len() - 1]);
        assert forall|j: int| 0 <= j < rest.len() implies #[trigger] rest[j].len() > 0 by {
            assert(rest[j] == words[j]);
        }
        lemma_progress_join(rest);
        assert(rest.push(w) =~= words);
        lemma_join_push(rest, w, ' ');
        let p = args_progress(rest);
        let f = flush_pending(p.args, p.pending);
        if is_flag_text(w) {
            lemma_join_push(f, w, ' ');
            assert(flush_pending(f.push(w), seq![]) == f.push(w));
        } else if p.after_flag {
            let pending = p.pending + w.push(' ');
            assert(pending.drop_last() =~= p.pending + w);
            assert(pending.last() == ' ');
            lemma_join_push(p.args, p.pending + w, ' ');
            if p.pending.len() == 0 {
                assert(p.pending + w =~= w);
            } else {
                let q = p.pending.drop_last();
                lemma_join_push(p.args, q, ' ');
                assert(p.pending =~= q + seq![' ']);
                assert(join_words(p.args) + seq![' '] + (p.pending + w) =~= join_words(p.args)
                    + seq![' '] + q + seq![' '] + w);
            }
        } else {
            lemma_join_push(p.args, w, ' ');
        }
    }
}

/// Grouping loses, adds and reorders no word: the arguments joined by
/// spaces are the line's words joined by spaces.
pub proof fn lemma_command_args_keep_words(line: Seq<char>)
    ensures
        join_words(command_args(line)) == join_words(split_whitespace(line)),
{
    lemma_split_whitespace_pieces(line);
    lemma_progress_join(split_whitespace(line));
}

/// Splitting the arguments joined by spaces gives the same arguments, and
/// lines with the same words give the same arguments.
pub proof fn lemma_command_args_stable(line: Seq<char>, other: Seq<char>)
    ensures
        command_args(join_words(command_args(line))) == command_args(line),
        split_whitespace(other) == split_whitespace(line) ==> command_args(other) == command_args(
            line,
        ),
{
    lemma_split_whitespace_pieces(line);
    lemma_command_args_keep_words(line);
    lemma_split_whitespace_of_joined(split_whitespace(line));
}

/// The lines of a text picture hold no line break; joined by line breaks,
/// with one more at the end when the text ends with one, they give the text
/// back; and there are no lines only for an empty text.
pub proof fn lemma_text_lines_rejoin(s: Seq<char>)
    ensures
        forall|i: int, j: int|
            0 <= i < text_lines(s).len() && 0 <= j < text_lines(s)[i].len() ==> #[trigger] text_lines(
                s,
            )[i][j] != '\n',
        join_with(text_lines(s), '\n') + (if s.len() > 0 && s.last() == '\n' {
            seq!['\n']
        } else {
            seq![]
        }) == s,
        text_lines(s).len() == 0 <==> s.len() == 0,
{
    lemma_split_on_rejoin(s, '\n');
    lemma_split_on_last_piece(s, '\n');
    let pieces = split_on(s, '\n');
    let lines = text_lines(s);
    assert forall|i: int, j: int| 0 <= i < lines.len() && 0 <= j < lines[i].len() implies lines[i][j]
        != '\n' by {
        assert(lines[i] == pieces[i]);
    }
    if pieces.last().len() > 0 {
        assert(join_with(lines, '\n') + Seq::<char>::empty() =~= s);
    } else if s.len() == 0 {
        assert(lines =~= Seq::<Seq<char>>::empty());
    } else {
        let rest = s.drop_last();
        lemma_split_on_rejoin(rest, '\n');
        lemma_split_on_nonempty(rest, '\n');
        assert(rest.push('\n') =~= s);
        assert(rest + seq!['\n'] =~= s);
    }
}

} // verus!

verus! {

/// After a flag with nothing pending, non-flag words are gathered into the
/// pending group, each followed by a space, and nothing else changes.
proof fn lemma_progress_gathers(ws: Seq<Seq<char>>, vs: Seq<Seq<char>>)
    requires
        args_progress(ws).after_flag,
        args_progress(ws).pending.len() == 0,
        forall|i: int| 0 <= i < vs.len() ==> !is_flag_text(#[trigger] vs[i]),
    ensures
        args_progress(ws + vs).args == args_progress(ws).args,
        args_progress(ws + vs).after_flag,
        args_progress(ws + vs).pending == if vs.len() == 0 {
            Seq::<char>::empty()
        } else {
            join_words(vs).push(' ')
        },
    decreases vs.len(),
{
    if vs.len() == 0 {
        assert(ws + vs =~= ws);
    } else {
        let u = vs.drop_last();
        let v = vs.last();
        assert forall|i: int| 0 <= i < u.len() implies !is_flag_text(#[trigger] u[i]) by {
            assert(u[i] == vs[i]);
        }
        lemma_progress_gathers(ws, u);
        assert((ws + vs).drop_last() =~= ws + u);
        assert((ws + vs).last() == v);
        assert(!is_flag_text(vs[vs.len() - 1]));
        lemma_join_push(u, v, ' ');
        assert(u.push(v) =~= vs);
        if u.len() == 0 {
            assert(Seq::<char>::empty() + v.push(' ') =~= v.push(' '));
        } else {
            assert(join_words(u).push(' ') + v.push(' ') =~= (join_words(u) + seq![' '] + v).push(
                ' ',
            ));
        }
    }
}

/// A flag followed by words that are not flags: wherever it stands in the
/// line, the flag is an argument of its own and all the words after it form
/// one more argument, joined by single spaces; the arguments before it are
/// those of the line's earlier words alone. So for the words `w0 f v1 .. vk`
/// the arguments are `[w0, f, "v1 .. vk"]`.
pub proof fn lemma_flag_takes_following_words(
    line: Seq<char>,
    pre: Seq<Seq<char>>,
    f: Seq<char>,
    vs: Seq<Seq<char>>,
)
    requires
        split_whitespace(line) == pre + seq![f] + vs,
        is_flag_text(f),
        vs.len() >= 1,
        forall|i: int| 0 <= i < vs.len() ==> !is_flag_text(#[trigger] vs[i]),
    ensures
        command_args(line) == command_args(join_words(pre)) + seq![f, join_words(vs)],
        pre.len() == 1 ==> command_args(line) == seq![pre[0], f, join_words(vs)],
{
    let ws = split_whitespace(line);
    lemma_split_whitespace_pieces(line);
    assert forall|i: int| 0 <= i < pre.len() implies #[trigger] pre[i].len() > 0 by {
        assert(pre[i] == ws[i]);
    }
    assert forall|i: int, j: int|
        0 <= i < pre.len() && 0 <= j < pre[i].len() implies !is_unicode_whitespace(
        #[trigger] pre[i][j],
    ) by {
        assert(pre[i] == ws[i]);
    }
    lemma_split_whitespace_of_joined(pre);
    let head = pre.push(f);
    assert(head.drop_last() =~= pre);
    assert(head.last() == f);
    let p = args_progress(pre);
    let ph = args_progress(head);
    assert(ph.args == flush_pending(p.args, p.pending).push(f));
    assert(ws =~= head + vs);
    lemma_progress_gathers(head, vs);
    lemma_join_push(vs.drop_last(), vs.last(), ' ');
    assert(join_words(vs).push(' ').drop_last() =~= join_words(vs));
    assert(command_args(line) =~= flush_pending(p.args, p.pending) + seq![f, join_words(vs)]);
    if pre.len() == 1 {
        assert(pre.drop_last() =~= Seq::<Seq<char>>::empty());
        assert(pre.last() == pre[0]);
        let p0 = args_progress(pre.drop_last());
        assert(p0.args =~= Seq::<Seq<char>>::empty() && p0.pending.len() == 0);
        assert(p.pending.len() == 0);
        assert(p.args =~= seq![pre[0]]);
        assert(flush_pending(p.args, p.pending) + seq![f, join_words(vs)] =~= seq![
            pre[0],
            f,
            join_words(vs),
        ]);
    }
}

} // verus!
