//! What holds of commands and texts for shells as a whole.

use crate::platform::Platform;
use crate::shell::args;
use crate::shell::args::ReadView;
use crate::shell::command;
use crate::shell::config::ConfigView;
use crate::shell::process;
use crate::shell::process::KillView;
use crate::shell::texts;
use crate::text;
use vstd::prelude::*;

verus! {

/// A command that is read in two parts is read as a whole.
pub proof fn lemma_read_on(read: ReadView, a: Seq<char>, b: Seq<char>)
    ensures
        args::read_chars(read, a + b) == args::read_chars(args::read_chars(read, a), b),
    decreases b.len(),
{
    if b.len() == 0 {
        assert(a + b =~= a);
    } else {
        lemma_read_on(read, a, b.drop_last());
        assert((a + b).drop_last() =~= a + b.drop_last());
        assert((a + b).last() == b.last());
    }
}

/// None of some words is empty.
pub open spec fn none_empty(words: Seq<Seq<char>>) -> bool {
    forall|i: int| 0 <= i < words.len() ==> (#[trigger] words[i]).len() > 0
}

proof fn lemma_none_empty(read: ReadView, cs: Seq<char>)
    requires
        none_empty(read.words),
    ensures
        none_empty(args::read_chars(read, cs).words),
    decreases cs.len(),
{
    if cs.len() > 0 {
        lemma_none_empty(read, cs.drop_last());
    }
}

/// No word of a command is empty.
pub proof fn words_are_not_empty(command: Seq<char>)
    ensures
        none_empty(args::words(command)),
{
    lemma_none_empty(args::unread(), command);
}

/// A command of white space has no words.
pub proof fn blank_commands_have_no_words(command: Seq<char>)
    requires
        forall|i: int| 0 <= i < command.len() ==> text::is_space(#[trigger] command[i]),
    ensures
        args::words(command).len() == 0,
{
    lemma_blank(command);
}

proof fn lemma_blank(command: Seq<char>)
    requires
        forall|i: int| 0 <= i < command.len() ==> text::is_space(#[trigger] command[i]),
    ensures
        args::read_chars(args::unread(), command) == args::unread(),
    decreases command.len(),
{
    if command.len() > 0 {
        assert forall|i: int| 0 <= i < command.drop_last().len() implies text::is_space(
            #[trigger] command.drop_last()[i],
        ) by {
            assert(command.drop_last()[i] == command[i]);
        }
        lemma_blank(command.drop_last());
        assert(command.last() == command[command.len() - 1]);
        assert(!text::is_space('\'') && !text::is_space('"'));
    }
}

/// What stands in open quotes belongs to the word at hand.
pub proof fn lemma_inside_quotes(read: ReadView, body: Seq<char>, quote: char)
    requires
        quote == '\'' && read.single && !read.double || quote == '"' && read.double
            && !read.single,
        !body.contains(quote),
    ensures
        args::read_chars(read, body) == (ReadView { word: read.word + body, ..read }),
    decreases body.len(),
{
    if body.len() == 0 {
        assert(read.word + body =~= read.word);
    } else {
        let front = body.drop_last();
        assert forall|i: int| 0 <= i < front.len() implies front[i] != quote by {
            assert(front[i] == body[i]);
            assert(body.contains(body[i]));
        }
        lemma_inside_quotes(read, front, quote);
        assert(body.contains(body[body.len() - 1]));
        assert((read.word + front).push(body.last()) =~= read.word + body);
    }
}

/// What stands in quotes, outside of other quotes, belongs to one word as it is,
/// white space included, and the quotes do not.
pub proof fn quoted_text_stays_together(read: ReadView, body: Seq<char>, quote: char)
    requires
        quote == '\'' || quote == '"',
        !body.contains(quote),
        !read.single && !read.double,
    ensures
        args::read_chars(read, seq![quote] + body + seq![quote]) == (ReadView {
            word: read.word + body,
            ..read
        }),
{
    let opened = args::read_char(read, quote);
    let one = seq![quote];
    lemma_read_on(read, one + body, one);
    lemma_read_on(read, one, body);
    assert(one.drop_last() =~= seq![]);
    assert(args::read_chars(read, one) == args::read_char(args::read_chars(read, seq![]), quote));
    lemma_inside_quotes(opened, body, quote);
    let inside = args::read_chars(read, one + body);
    assert(args::read_chars(inside, one) == args::read_char(
        args::read_chars(inside, seq![]),
        quote,
    ));
}

/// A command that is nothing but text in quotes has that text as its one word.
pub proof fn quoted_commands_are_one_word(body: Seq<char>, quote: char)
    requires
        quote == '\'' || quote == '"',
        !body.contains(quote),
        body.len() > 0,
    ensures
        args::words(seq![quote] + body + seq![quote]) == seq![body],
{
    quoted_text_stays_together(args::unread(), body, quote);
    assert(args::unread().word + body =~= body);
    assert(args::unread().words.push(body) =~= seq![body]);
}

/// Characters that a word holds outside of quotes.
pub open spec fn is_plain(c: char) -> bool {
    !text::is_space(c) && c != '\'' && c != '"'
}

/// Plain characters outside of quotes belong to the word at hand.
pub proof fn lemma_plain(read: ReadView, word: Seq<char>)
    requires
        !read.single && !read.double,
        forall|i: int| 0 <= i < word.len() ==> is_plain(#[trigger] word[i]),
    ensures
        args::read_chars(read, word) == (ReadView { word: read.word + word, ..read }),
    decreases word.len(),
{
    if word.len() == 0 {
        assert(read.word + word =~= read.word);
    } else {
        let front = word.drop_last();
        assert forall|i: int| 0 <= i < front.len() implies is_plain(#[trigger] front[i]) by {
            assert(front[i] == word[i]);
        }
        lemma_plain(read, front);
        assert(is_plain(word[word.len() - 1]));
        assert((read.word + front).push(word.last()) =~= read.word + word);
    }
}

/// A text without white space and quotes is one word.
pub proof fn plain_text_is_one_word(word: Seq<char>)
    requires
        word.len() > 0,
        forall|i: int| 0 <= i < word.len() ==> is_plain(#[trigger] word[i]),
    ensures
        args::words(word) == seq![word],
{
    lemma_plain(args::unread(), word);
    assert(args::unread().word + word =~= word);
    assert(args::unread().words.push(word) =~= seq![word]);
}

proof fn lemma_words_go_before(read: ReadView, cs: Seq<char>, more: Seq<Seq<char>>)
    ensures
        args::read_chars(ReadView { words: more + read.words, ..read }, cs) == (ReadView {
            words: more + args::read_chars(read, cs).words,
            ..args::read_chars(read, cs)
        }),
    decreases cs.len(),
{
    if cs.len() > 0 {
        lemma_words_go_before(read, cs.drop_last(), more);
        let before = args::read_chars(read, cs.drop_last());
        assert((more + before.words).push(before.word) =~= more + before.words.push(before.word));
    }
}

/// White space outside of quotes parts the words before it from those behind it.
pub proof fn white_space_parts_words(a: Seq<char>, space: char, b: Seq<char>)
    requires
        text::is_space(space),
        ({
            let read = args::read_chars(args::unread(), a);
            !read.single && !read.double
        }),
    ensures
        args::words(a + seq![space] + b) == args::words(a) + args::words(b),
{
    let start = args::unread();
    let one = seq![space];
    lemma_read_on(start, a + one, b);
    lemma_read_on(start, a, one);
    let read = args::read_chars(start, a);
    assert(one.drop_last() =~= seq![]);
    assert(args::read_chars(read, one) == args::read_char(args::read_chars(read, seq![]), space));
    assert(!text::is_space('\'') && !text::is_space('"'));
    let parted = args::read_chars(start, a + one);
    assert(parted == (ReadView { words: args::words(a) + start.words, ..start })) by {
        assert(args::words(a) + start.words =~= args::words(a));
    }
    lemma_words_go_before(start, b, args::words(a));
    let rest = args::read_chars(start, b);
    assert((args::words(a) + rest.words).push(rest.word) =~= args::words(a) + rest.words.push(
        rest.word,
    ));
}

/// The value of a variable after some were set, one after the other: the last
/// one counts.
pub open spec fn value_of(envs: Seq<(Seq<char>, Seq<char>)>, key: Seq<char>) -> Option<Seq<char>>
    decreases envs.len(),
{
    if envs.len() == 0 {
        None
    } else if envs.last().0 == key {
        Some(envs.last().1)
    } else {
        value_of(envs.drop_last(), key)
    }
}

proof fn lemma_value_of(
    a: Seq<(Seq<char>, Seq<char>)>,
    b: Seq<(Seq<char>, Seq<char>)>,
    key: Seq<char>,
)
    ensures
        value_of(a + b, key) == match value_of(b, key) {
            Some(value) => Some(value),
            None => value_of(a, key),
        },
    decreases b.len(),
{
    if b.len() == 0 {
        assert(a + b =~= a);
    } else {
        lemma_value_of(a, b.drop_last(), key);
        assert((a + b).drop_last() =~= a + b.drop_last());
        assert((a + b).last() == b.last());
    }
}

/// The variables of a shell go before those that every command has.
pub proof fn shell_variables_win(
    config: ConfigView,
    command: Seq<char>,
    working_dir: Option<Seq<char>>,
    platform: Platform,
    key: Seq<char>,
)
    ensures
        value_of(command::shell_plan(config, command, working_dir, platform).envs, key)
            == match value_of(config.envs, key) {
            Some(value) => Some(value),
            None => value_of(command::agent_envs(), key),
        },
{
    lemma_value_of(command::agent_envs(), config.envs, key);
}

/// Stopping a process ends with killing the process itself, and on Unix its
/// group is asked to end before it is killed.
pub proof fn processes_are_killed_at_last(pid: Option<u32>, platform: Platform)
    ensures
        process::kill_steps(pid, platform).last() == KillView::KillChild,
        pid is Some && !(platform is Windows) ==> {
            let target = process::group_target(pid->0) as i32;
            &&& process::kill_steps(pid, platform)[0] == (KillView::Signal {
                target,
                signal: process::Signal::Terminate,
            })
            &&& process::kill_steps(pid, platform)[2] == (KillView::Signal {
                target,
                signal: process::Signal::Kill,
            })
        },
        pid matches Some(n) ==> (0 < n <= i32::MAX ==> process::group_target(n) == -(n as int)),
{
}

/// A carriage return stands before every line feed.
pub open spec fn feeds_follow_returns(s: Seq<char>) -> bool {
    forall|i: int| 0 <= i < s.len() && #[trigger] s[i] == '\n' ==> i > 0 && s[i - 1] == '\r'
}

proof fn lemma_before_feed(y: Seq<char>)
    ensures
        match text::find(y, seq!['\n']) {
            Some(i) => 0 <= i < y.len() && y[i] == '\n' && !y.take(i).contains('\n'),
            None => !y.contains('\n'),
        },
{
    let feed = seq!['\n'];
    text::lemma_find(y, feed);
    let n = match text::find(y, feed) {
        Some(i) => i,
        None => y.len() as int,
    };
    if n < y.len() {
        assert(y.subrange(n, n + 1)[0] == '\n');
    }
    assert forall|k: int| 0 <= k < n implies y[k] != '\n' by {
        assert(!text::occurs_at(y, feed, k));
        if y[k] == '\n' {
            assert(y.subrange(k, k + 1) =~= feed);
        }
    }
}

proof fn lemma_first_pair(z: Seq<char>, both: Seq<char>, i: int)
    requires
        both.len() == 2,
        both[0] == '\r',
        both[1] == '\n',
        0 <= i,
        i + 2 <= z.len(),
        z[i] == '\r',
        z[i + 1] == '\n',
        !z.take(i).contains('\n'),
    ensures
        text::find(z, both) == Some(i),
{
    assert(text::occurs_at(z, both, i)) by {
        assert(z.subrange(i, i + 2) =~= both);
    }
    text::lemma_find(z, both);
    let k = text::find(z, both)->0;
    if k < i {
        assert(z.subrange(k, k + 2)[1] == z[k + 1]);
        if k + 1 < i {
            assert(z.take(i)[k + 1] == '\n');
        }
    }
}

proof fn lemma_feeds_join(head: Seq<char>, tail: Seq<char>)
    requires
        !head.contains('\n'),
        feeds_follow_returns(tail),
    ensures
        feeds_follow_returns(head + seq!['\r', '\n'] + tail),
{
    let z = head + seq!['\r', '\n'] + tail;
    let i = head.len() as int;
    assert forall|k: int| 0 <= k < z.len() && #[trigger] z[k] == '\n' implies k > 0 && z[k - 1]
        == '\r' by {
        if k < i {
            assert(head.contains(head[k]));
        } else if k >= i + 2 {
            let m = k - i - 2;
            assert(tail[m] == '\n');
            assert(z[k - 1] == tail[m - 1]);
        } else {
            assert(z[i] == '\r' && z[i + 1] == '\n');
        }
    }
}

proof fn lemma_no_pair_without_feed(y: Seq<char>)
    requires
        !y.contains('\n'),
    ensures
        text::find(y, seq!['\r', '\n']) is None,
        feeds_follow_returns(y),
{
    let both = seq!['\r', '\n'];
    text::lemma_find(y, both);
    if let Some(m) = text::find(y, both) {
        assert(y.subrange(m, m + 2)[1] == '\n');
        assert(y.contains(y[m + 1]));
    }
    assert forall|k: int| 0 <= k < y.len() && #[trigger] y[k] == '\n' implies k > 0 && y[k - 1]
        == '\r' by {
        assert(y.contains(y[k]));
    }
}

proof fn lemma_feeds(y: Seq<char>)
    ensures
        feeds_follow_returns(text::replaced(y, seq!['\n'], seq!['\r', '\n'])),
        text::replaced(
            text::replaced(y, seq!['\n'], seq!['\r', '\n']),
            seq!['\r', '\n'],
            seq!['\n'],
        ) == y,
    decreases y.len(),
{
    let feed = seq!['\n'];
    let both = seq!['\r', '\n'];
    lemma_before_feed(y);
    match text::find(y, feed) {
        None => {
            lemma_no_pair_without_feed(y);
        },
        Some(i) => {
            let rest = y.skip(i + 1);
            let head = y.take(i);
            let tail = text::replaced(rest, feed, both);
            let z = head + both + tail;
            lemma_feeds(rest);
            lemma_feeds_join(head, tail);
            assert(z.take(i) =~= head);
            lemma_first_pair(z, both, i);
            assert(text::replaced(y, feed, both) == z);
            assert(z.skip(i + 2) =~= tail);
            assert(text::replaced(z, both, feed) == head + feed + rest);
            assert(head + feed + rest =~= y);
        },
    }
}

/// On Windows a carriage return stands before every line feed, and a text with
/// the line ends of Windows keeps them.
pub proof fn windows_line_ends_are_whole(s: Seq<char>)
    ensures
        feeds_follow_returns(texts::native_lines(s, Platform::Windows)),
        texts::native_lines(texts::native_lines(s, Platform::Windows), Platform::Windows)
            == texts::native_lines(s, Platform::Windows),
{
    reveal_strlit("\n");
    reveal_strlit("\r\n");
    assert("\n"@ =~= seq!['\n']);
    assert("\r\n"@ =~= seq!['\r', '\n']);
    lemma_feeds(text::replaced(s, "\r\n"@, "\n"@));
}

/// From the line ends of Windows one comes back to those of Unix.
pub proof fn line_ends_convert_back(s: Seq<char>)
    ensures
        texts::native_lines(texts::native_lines(s, Platform::Windows), Platform::Unix)
            == texts::native_lines(s, Platform::Unix),
{
    reveal_strlit("\n");
    reveal_strlit("\r\n");
    assert("\n"@ =~= seq!['\n']);
    assert("\r\n"@ =~= seq!['\r', '\n']);
    lemma_feeds(text::replaced(s, "\r\n"@, "\n"@));
}

proof fn lemma_no_pair(s: Seq<char>)
    requires
        !text::has(s, seq!['\r', '\r', '\n']),
    ensures
        !text::has(text::replaced(s, seq!['\r', '\n'], seq!['\n']), seq!['\r', '\n']),
    decreases s.len(),
{
    let feed = seq!['\n'];
    let both = seq!['\r', '\n'];
    let triple = seq!['\r', '\r', '\n'];
    let y = text::replaced(s, both, feed);
    text::lemma_find(s, both);
    text::lemma_find(s, triple);
    match text::find(s, both) {
        None => {},
        Some(i) => {
            let rest = s.skip(i + 2);
            let head = s.take(i);
            text::lemma_find(rest, triple);
            assert forall|m: int| !text::occurs_at(rest, triple, m) by {
                if text::occurs_at(rest, triple, m) {
                    assert(s.subrange(m + i + 2, m + i + 5) =~= rest.subrange(m, m + 3));
                    assert(text::occurs_at(s, triple, m + i + 2));
                }
            }
            lemma_no_pair(rest);
            let tail = text::replaced(rest, both, feed);
            text::lemma_find(tail, both);
            text::lemma_find(y, both);
            assert(y == head + feed + tail);
            assert forall|m: int| !text::occurs_at(y, both, m) by {
                if text::occurs_at(y, both, m) {
                    assert(y.subrange(m, m + 2)[0] == '\r' && y.subrange(m, m + 2)[1] == '\n');
                    assert(y[m] == '\r' && y[m + 1] == '\n');
                    if m + 1 < i {
                        assert(s[m] == y[m] && s[m + 1] == y[m + 1]);
                        assert(s.subrange(m, m + 2) =~= both);
                        assert(text::occurs_at(s, both, m));
                    } else if m + 1 == i {
                        assert(s[m] == '\r');
                        assert(s.subrange(i, i + 2)[0] == '\r' && s.subrange(i, i + 2)[1] == '\n');
                        assert(s.subrange(m, m + 3) =~= triple);
                        assert(text::occurs_at(s, triple, m));
                    } else if m == i {
                        assert(y[i] == '\n');
                    } else {
                        assert(tail.subrange(m - i - 1, m - i + 1) =~= y.subrange(m, m + 2));
                        assert(text::occurs_at(tail, both, m - i - 1));
                    }
                }
            }
        },
    }
}

/// On Unix no carriage return stands before a line feed, where the text did not
/// hold two in a row before one; such a text keeps its line ends.
pub proof fn unix_line_ends_are_bare(s: Seq<char>)
    requires
        !text::has(s, seq!['\r', '\r', '\n']),
    ensures
        !text::has(texts::native_lines(s, Platform::Unix), "\r\n"@),
        texts::native_lines(texts::native_lines(s, Platform::Unix), Platform::Unix)
            == texts::native_lines(s, Platform::Unix),
{
    reveal_strlit("\n");
    reveal_strlit("\r\n");
    assert("\n"@ =~= seq!['\n']);
    assert("\r\n"@ =~= seq!['\r', '\n']);
    lemma_no_pair(s);
}

/// Paths that do not begin with a tilde stay on Unix, and where the home
/// directory is absolute, so is every path that it was put into.
pub proof fn expansion_is_bounded(
    path: Seq<char>,
    home: Option<Seq<char>>,
    userprofile: Option<Seq<char>>,
    appdata: Option<Seq<char>>,
)
    ensures
        ({
            let r = texts::expanded(path, Platform::Unix, home, userprofile, appdata);
            &&& !text::begins(path, "~"@) ==> r == path
            &&& r != path && home is Some && texts::absolute_on(home->0, Platform::Unix)
                ==> texts::absolute_on(r, Platform::Unix)
        }),
{
    reveal_strlit("~");
    reveal_strlit("~/");
    reveal_strlit("/");
    let r = texts::expanded(path, Platform::Unix, home, userprofile, appdata);
    if path == "~"@ {
        assert(path.subrange(0, 1) =~= "~"@);
    }
    if text::begins(path, "~/"@) {
        assert(path.subrange(0, 2)[0] == '~');
        assert(path.subrange(0, 1) =~= "~"@);
    }
    if r != path && home is Some && texts::absolute_on(home->0, Platform::Unix) {
        assert(r.subrange(0, 1) =~= home->0.subrange(0, 1));
    }
}

} // verus!
