//! What is listed of the files that differ from the last commit, in terms of
//! what git wrote about them.

use crate::encoding;
use crate::git::changes;
use crate::git::changes::RowView;
use crate::git::exchange::{GitAction, GitStep, ReplyView};
use crate::git::laws;
use crate::git::listing;
use crate::git::state_laws;
use crate::git::types::ChangedFile;
use crate::numbers;
use crate::order;
use crate::platform::Platform;
use crate::text;
use crate::text_laws;
use vstd::prelude::*;
use vstd::utf8::*;

verus! {

/// The word that goes with the two columns of a status, the first for the index
/// and the second for the files: a file is untracked where both are a question
/// mark, added where the first says so, deleted where either does, renamed or
/// copied where the first says so, and else modified.
pub open spec fn word_fits(word: Seq<char>, x: u8, y: u8) -> bool {
    let untracked = x == 0x3f && y == 0x3f;
    let added = x == 0x41 || x == 0x3f && y != 0x3f;
    let deleted = !added && !untracked && (x == 0x44 || y == 0x44);
    &&& untracked <==> word == "untracked"@
    &&& added <==> word == "added"@
    &&& deleted <==> word == "deleted"@
    &&& x == 0x52 && y != 0x44 <==> word == "renamed"@
    &&& x == 0x43 && y != 0x44 <==> word == "copied"@
    &&& !untracked && !added && !deleted && x != 0x52 && x != 0x43 <==> word == "modified"@
}

proof fn lemma_words_differ()
    ensures
        "untracked"@.len() == 9,
        "added"@.len() == 5,
        "deleted"@.len() == 7,
        "renamed"@.len() == 7,
        "copied"@.len() == 6,
        "modified"@.len() == 8,
        "deleted"@ != "renamed"@,
{
    reveal_strlit("untracked");
    reveal_strlit("added");
    reveal_strlit("deleted");
    reveal_strlit("renamed");
    reveal_strlit("copied");
    reveal_strlit("modified");
    assert("deleted"@[0] == 'd' && "renamed"@[0] == 'r');
}

/// The word for two columns of a status is the one that goes with them.
pub proof fn status_words_fit_their_columns(x: u8, y: u8)
    ensures
        word_fits(changes::status_word(x, y), x, y),
{
    lemma_words_differ();
}

proof fn lemma_ascii(c: char, rest: Seq<char>)
    requires
        c as u32 <= 0x7f,
    ensures
        encoding::utf8_width(c) == 1,
        encode_utf8(seq![c] + rest) == seq![c as u8] + encode_utf8(rest),
{
    let n = c as u32;
    assert((n & 0x7f) as u8 == n as u8) by (bit_vector)
        requires
            n <= 0x7f,
    ;
    assert((seq![c] + rest).drop_first() =~= rest);
    assert(encode_scalar(n) =~= seq![c as u8]);
}

/// The arrow stands in a text at one place alone.
pub open spec fn parted_once(s: Seq<char>, arrow: Seq<char>, i: int) -> bool {
    text_laws::stands_at(s, arrow, i) && forall|k: int|
        #[trigger] text_laws::stands_at(s, arrow, k) ==> k == i
}

proof fn lemma_behind_last(s: Seq<char>, sep: Seq<char>, i: int)
    requires
        sep.len() > 0,
    ensures
        !text::has(s, sep) ==> changes::behind_last(s, sep) == s,
        parted_once(s, sep, i) ==> changes::behind_last(s, sep) == s.skip(i + sep.len()),
{
    if parted_once(s, sep, i) {
        text_laws::found_texts_stand_in_the_text(s, sep);
        text::lemma_find(s, sep);
        let k = text::find(s, sep)->0;
        text_laws::lemma_stands_at(s, sep, k);
        assert(k == i);
        let rest = s.skip(i + sep.len());
        text_laws::found_texts_stand_in_the_text(rest, sep);
        if text::has(rest, sep) {
            let m = choose|m: int| #[trigger] text_laws::stands_at(rest, sep, m);
            assert(text_laws::stands_at(s, sep, m + i + sep.len())) by {
                assert forall|j: int| 0 <= j < sep.len() implies s[m + i + sep.len() + j]
                    == #[trigger] sep[j] by {
                    assert(rest[m + j] == sep[j]);
                }
            }
        }
        assert(text::split(rest, sep) == seq![rest]);
        assert(text::split(s, sep) =~= seq![s.take(i), rest]);
    }
}

/// A line of the status whose columns are plain is about a file with the word for
/// its first two columns, and the path behind the third: without the white space
/// and the quotes around it, and for a rename the part behind the arrow.
pub proof fn status_lines_are_read_by_columns(
    x: char,
    y: char,
    z: char,
    column: Seq<char>,
    bare: Seq<char>,
    i: int,
)
    requires
        x as u32 <= 0x7f && y as u32 <= 0x7f && z as u32 <= 0x7f,
        column.len() > 0,
        text::trimmed(column) == bare && !(bare.len() >= 2 && bare[0] == '"' && bare.last() == '"')
            || text::trimmed(column) == seq!['"'] + bare + seq!['"'],
    ensures
        ({
            let line = seq![x, y, z] + column;
            &&& changes::has_path_column(line)
            &&& changes::status_row(line) matches Some(row) && {
                &&& word_fits(row.status, x as u8, y as u8)
                &&& !text::has(bare, " -> "@) ==> row.path == bare
                &&& parted_once(bare, " -> "@, i) ==> row.path == bare.skip(i + 4)
            }
        }),
{
    reveal_strlit(" -> ");
    let line = seq![x, y, z] + column;
    let two = seq![y, z] + column;
    let one = seq![z] + column;
    assert(line =~= seq![x] + two);
    assert(two =~= seq![y] + one);
    lemma_ascii(x, two);
    lemma_ascii(y, one);
    lemma_ascii(z, column);
    assert(line.drop_first() =~= two);
    assert(two.drop_first() =~= one);
    assert(one.drop_first() =~= column);
    let bytes = encode_utf8(line);
    assert(bytes =~= seq![x as u8, y as u8, z as u8] + encode_utf8(column));
    assert(encode_utf8(column).len() >= 1) by {
        assert(encode_scalar(column[0] as u32).len() >= 1);
    }
    reveal_with_fuel(encoding::skip_bytes, 4);
    assert(encoding::skip_bytes(column, 0) == Some(column));
    assert(encoding::skip_bytes(one, 1) == Some(column));
    assert(encoding::skip_bytes(two, 2) == Some(column));
    assert(encoding::skip_bytes(line, 3) == Some(column));
    status_words_fit_their_columns(x as u8, y as u8);
    let t = text::trimmed(column);
    if t == seq!['"'] + bare + seq!['"'] {
        assert(t.subrange(1, t.len() - 1) =~= bare);
    }
    assert(changes::unquoted(t) == bare);
    lemma_behind_last(bare, " -> "@, i);
}

/// Lines of less than four bytes are about no file, and all others are about one.
pub proof fn short_lines_are_about_no_file(line: Seq<char>)
    ensures
        changes::status_row(line) is None <==> encode_utf8(line).len() < 4,
{
}

proof fn lemma_status_rows(ls: Seq<Seq<char>>) -> (places: Seq<int>)
    ensures
        ({
            let rows = changes::status_rows(ls);
            &&& places.len() == rows.len()
            &&& forall|k: int|
                0 <= k < places.len() ==> 0 <= #[trigger] places[k] < ls.len()
                    && changes::status_row(ls[places[k]]) == Some(rows[k])
            &&& forall|k: int, m: int|
                #![trigger places[k], places[m]]
                0 <= k < m < places.len() ==> places[k] < places[m]
            &&& forall|i: int|
                0 <= i < ls.len() && changes::status_row(#[trigger] ls[i]) is Some
                    ==> places.contains(i)
        }),
    decreases ls.len(),
{
    if ls.len() == 0 {
        seq![]
    } else {
        let front = ls.drop_last();
        let n = front.len() as int;
        let before = lemma_status_rows(front);
        let rows = changes::status_rows(ls);
        let places = if changes::status_row(ls.last()) is Some {
            before.push(n)
        } else {
            before
        };
        assert forall|k: int| 0 <= k < places.len() implies 0 <= #[trigger] places[k] < ls.len()
            && changes::status_row(ls[places[k]]) == Some(rows[k]) by {
            if k < before.len() {
                assert(places[k] == before[k]);
                assert(front[before[k]] == ls[before[k]]);
            }
        }
        assert forall|i: int|
            0 <= i < ls.len() && changes::status_row(#[trigger] ls[i]) is Some implies
            places.contains(i) by {
            if i < n {
                assert(front[i] == ls[i]);
                let k = choose|k: int| 0 <= k < before.len() && before[k] == i;
                assert(places[k] == i);
            } else {
                assert(places[before.len() as int] == i);
            }
        }
        places
    }
}

/// What git wrote about the changes of each file. Where it failed, as before the
/// first commit, it counts as nothing.
pub open spec fn told_changes(reply: ReplyView) -> Seq<char> {
    match state_laws::wrote(reply) {
        Some(t) => t,
        None => Seq::empty(),
    }
}

/// The added and deleted lines of a file: those of the diff, or else those that
/// were counted for its path.
pub open spec fn lines_fit(file: ChangedFile, path: Seq<char>, replies: Seq<ReplyView>) -> bool {
    let stats = changes::numstat(text::lines(told_changes(replies[3])));
    if stats.contains_key(file.path@) {
        (file.additions, file.deletions) == stats[file.path@]
    } else {
        replies.len() > 4 && (replies[4] matches ReplyView::LineCounts(counting) && counting.dir
            == path && exists|j: int|
            0 <= j < counting.files.len() && 0 <= j < counting.counts.len()
                && #[trigger] counting.files[j] == file.path@ && counting.counts[j] == (
            file.additions,
            file.deletions,
        ))
    }
}

/// Each line of the status that is long enough to be about a file is listed, once,
/// with the word for its first two columns, its path and its lines, and nothing
/// else is; the paths ascend. `places` gives the line of each listed file.
pub proof fn listed_files_bear_their_lines(
    path: Seq<char>,
    platform: Platform,
    replies: Seq<ReplyView>,
    r: GitStep<Vec<ChangedFile>>,
) -> (places: Seq<int>)
    requires
        r@ == listing::changed_files_step(path, platform, replies),
        r matches GitStep::Done(Ok(_)),
        replies.len() > 3,
        state_laws::wrote(replies[1]) matches Some(t) && text::trimmed(t) == "true"@,
        state_laws::wrote(replies[2]) matches Some(t) && text::trimmed(t).len() > 0
            && text::lines(t).len() <= usize::MAX,
    ensures
        ({
            let files = r->Done_0->Ok_0@;
            let ls = text::lines(state_laws::wrote(replies[2])->0);
            &&& places.len() == files.len()
            &&& places.no_duplicates()
            &&& forall|k: int|
                0 <= k < files.len() ==> {
                    &&& 0 <= #[trigger] places[k] < ls.len()
                    &&& encode_utf8(ls[places[k]]).len() >= 4
                    &&& word_fits(
                        files[k].status@,
                        encode_utf8(ls[places[k]])[0],
                        encode_utf8(ls[places[k]])[1],
                    )
                    &&& changes::status_row(ls[places[k]]) matches Some(row) && row.path
                        == files[k].path@
                    &&& lines_fit(files[k], path, replies)
                }
            &&& forall|i: int|
                0 <= i < ls.len() && encode_utf8(#[trigger] ls[i]).len() >= 4 ==> places.contains(i)
            &&& forall|i: int, j: int|
                #![trigger files[i], files[j]]
                0 <= i < j < files.len() ==> !order::text_before(files[j].path@, files[i].path@)
        }),
{
    let status = state_laws::wrote(replies[2])->0;
    let diff = told_changes(replies[3]);
    let ls = text::lines(status);
    let rows = changes::status_rows(ls);
    let stats = changes::numstat(text::lines(diff));
    let known = lemma_status_rows(ls);
    let waiting = changes::uncounted(rows, stats);
    assert(text::lines(Seq::<char>::empty()) =~= seq![]);
    let counts = if waiting.len() == 0 {
        Seq::<(u32, u32)>::empty()
    } else {
        replies[4]->LineCounts_0.counts
    };
    let files = r->Done_0->Ok_0@;
    let shown = r->Done_0->Ok_0.deep_view();
    assert(shown == changes::changed_files(rows, stats, counts));
    lemma_fits(known, ls.len() as int);
    let order = laws::changed_files_are_sorted_and_complete(rows, stats, counts);
    let places = Seq::new(files.len(), |k: int| known[order[k] as int]);
    assert(shown.len() == files.len());
    assert forall|k: int| 0 <= k < files.len() implies {
        &&& 0 <= #[trigger] places[k] < ls.len()
        &&& encode_utf8(ls[places[k]]).len() >= 4
        &&& word_fits(
            files[k].status@,
            encode_utf8(ls[places[k]])[0],
            encode_utf8(ls[places[k]])[1],
        )
        &&& changes::status_row(ls[places[k]]) matches Some(row) && row.path == files[k].path@
        &&& lines_fit(files[k], path, replies)
    } by {
        let i = order[k] as int;
        assert(0 <= i < rows.len());
        let line = ls[known[i]];
        assert(changes::status_row(line) == Some(rows[i]));
        assert(shown[k] == laws::row_file(rows, stats, counts, i));
        assert(shown[k] == files[k]@);
        status_words_fit_their_columns(encode_utf8(line)[0], encode_utf8(line)[1]);
        if !stats.contains_key(rows[i].path) {
            laws::counts_go_to_their_files(rows, stats, i);
            let j = changes::uncounted(rows.take(i), stats).len() as int;
            let counting = replies[4]->LineCounts_0;
            assert(counting.files[j] == rows[i].path);
        }
    }
    assert forall|k: int, m: int| 0 <= k < places.len() && 0 <= m < places.len() && k != m implies
        places[k] != places[m] by {
        assert(order[k] != order[m]);
        let (a, b) = (order[k] as int, order[m] as int);
        assert(0 <= a < rows.len() && 0 <= b < rows.len());
        if a < b {
            assert(known[a] < known[b]);
        } else {
            assert(known[b] < known[a]);
        }
    }
    assert forall|i: int| 0 <= i < ls.len() && encode_utf8(#[trigger] ls[i]).len() >= 4 implies
        places.contains(i) by {
        assert(changes::status_row(ls[i]) is Some);
        let k = choose|k: int| 0 <= k < known.len() && known[k] == i;
        assert(order.contains(k as usize));
        let m = choose|m: int| 0 <= m < order.len() && order[m] == k as usize;
        assert(places[m] == i);
    }
    assert forall|i: int, j: int|
        #![trigger files[i], files[j]]
        0 <= i < j < files.len() implies !order::text_before(files[j].path@, files[i].path@) by {
        assert(shown[i] == files[i]@ && shown[j] == files[j]@);
    }
    places
}

proof fn lemma_fits(places: Seq<int>, n: int)
    requires
        forall|k: int| 0 <= k < places.len() ==> 0 <= #[trigger] places[k] < n,
        forall|k: int, m: int|
            #![trigger places[k], places[m]]
            0 <= k < m < places.len() ==> places[k] < places[m],
    ensures
        places.len() <= n || places.len() == 0,
    decreases places.len(),
{
    if places.len() > 0 {
        let front = places.drop_last();
        let last = places[places.len() - 1];
        assert forall|k: int| 0 <= k < front.len() implies 0 <= #[trigger] front[k] < last by {
            assert(front[k] == places[k]);
        }
        assert forall|k: int, m: int|
            #![trigger front[k], front[m]]
            0 <= k < m < front.len() implies front[k] < front[m] by {
            assert(front[k] == places[k] && front[m] == places[m]);
        }
        lemma_fits(front, last);
    }
}

/// A column of counts stands for a number: its digits, or a dash for none, as of a
/// binary file.
pub open spec fn column_says(column: Seq<char>, n: u32) -> bool {
    column == numbers::decimal(n as nat) || column == "-"@ && n == 0
}

proof fn lemma_column(column: Seq<char>, n: u32)
    requires
        column_says(column, n),
    ensures
        changes::numstat_count(column) == n,
        !column.contains('\t'),
{
    reveal_strlit("-");
    if column == "-"@ {
        text_laws::other_texts_are_no_numbers(column, 0);
    } else {
        text_laws::written_numbers_are_read(n, 0x1_0000_0000);
        numbers::decimal_reads_back(n as nat);
        assert forall|i: int| 0 <= i < column.len() implies column[i] != '\t' by {
            assert(numbers::is_digit(column[i]));
        }
    }
}

/// A line of the differences with two counts and a path tells the counts of that
/// path, or of the new one where the line is about a rename, whatever the lines
/// before it told of that path, and changes nothing of other paths.
pub proof fn differences_are_counted_by_file(
    ls: Seq<Seq<char>>,
    x: Seq<char>,
    y: Seq<char>,
    path: Seq<char>,
    added: u32,
    deleted: u32,
)
    requires
        column_says(x, added),
        column_says(y, deleted),
    ensures
        ({
            let before = changes::numstat(ls);
            let after = changes::numstat(ls.push(x + "\t"@ + y + "\t"@ + path));
            let file = changes::renamed_to(path);
            &&& after.contains_key(file) && after[file] == (added, deleted)
            &&& forall|other: Seq<char>|
                #![trigger after.contains_key(other)]
                other != file ==> after.contains_key(other) == before.contains_key(other) && (
                before.contains_key(other) ==> after[other] == before[other])
        }),
{
    reveal_strlit("\t");
    let tab = "\t"@;
    assert(tab =~= seq!['\t']);
    let line = x + tab + y + tab + path;
    lemma_column(x, added);
    lemma_column(y, deleted);
    assert(line =~= x + tab + (y + tab + path));
    text_laws::texts_are_cut_at_each_character(x, '\t', y + tab + path);
    text_laws::texts_are_cut_at_each_character(y, '\t', path);
    text_laws::pieces_join_to_the_text(path, tab);
    let parts = text::split(line, tab);
    assert(parts =~= seq![x, y] + text::split(path, tab));
    assert(parts.skip(2) =~= text::split(path, tab));
    assert(ls.push(line).drop_last() =~= ls);
    assert(ls.push(line).last() == line);
}

/// A line with less than two tabs tells nothing of any path, nor do no lines.
pub proof fn other_lines_count_nothing(ls: Seq<Seq<char>>, x: Seq<char>, y: Seq<char>)
    requires
        !x.contains('\t'),
        !y.contains('\t'),
    ensures
        changes::numstat(ls.push(x)) == changes::numstat(ls),
        changes::numstat(ls.push(x + "\t"@ + y)) == changes::numstat(ls),
        changes::numstat(Seq::empty()) == Map::<Seq<char>, (u32, u32)>::empty(),
{
    reveal_strlit("\t");
    let tab = "\t"@;
    assert(tab =~= seq!['\t']);
    text_laws::texts_are_cut_at_each_character(x, '\t', y);
    text_laws::texts_are_cut_at_each_character(y, '\t', x);
    assert(ls.push(x).drop_last() =~= ls);
    assert(ls.push(x + tab + y).drop_last() =~= ls);
    assert(ls.push(x).last() == x);
    assert(ls.push(x + tab + y).last() == x + tab + y);
    assert(text::split(x + tab + y, tab) =~= seq![x, y]);
}

proof fn lemma_first_place(head: Seq<char>, c: char, rest: Seq<char>)
    requires
        !head.contains(c),
    ensures
        text::find(head + seq![c] + rest, seq![c]) == Some(head.len() as int),
{
    let whole = head + seq![c] + rest;
    let n = head.len() as int;
    text_laws::lemma_find_char(whole, c);
    assert(whole[n] == c);
    assert(whole.contains(whole[n]));
    let i = text::find(whole, seq![c])->0;
    if i < n {
        assert(head[i] == whole[i]);
        assert(head.contains(head[i]));
    }
    if n < i {
        assert(whole.take(i)[n] == c);
    }
}

/// Where a rename is written in braces, the new path has what stands behind the
/// arrow in their place, and what stands around them. Where it is written without
/// both braces, the new path is what stands behind the arrow; and a path without
/// an arrow is told as it is.
pub proof fn renames_tell_the_new_path(
    front: Seq<char>,
    old_part: Seq<char>,
    new_part: Seq<char>,
    back: Seq<char>,
)
    requires
        parted_once(old_part + " => "@ + new_part, " => "@, old_part.len() as int),
    ensures
        !front.contains('{') && !front.contains('}') && !(old_part + " => "@ + new_part).contains(
            '}',
        ) ==> changes::renamed_to(
            front + seq!['{'] + (old_part + " => "@ + new_part) + seq!['}'] + back,
        ) == front + new_part + back,
        !(old_part + " => "@ + new_part).contains('{') || !(old_part + " => "@ + new_part).contains(
            '}',
        ) ==> changes::renamed_to(old_part + " => "@ + new_part) == new_part,
        !text::has(back, " => "@) && (!back.contains('{') || !back.contains('}'))
            ==> changes::renamed_to(back) == back,
{
    reveal_strlit(" => ");
    let inside = old_part + " => "@ + new_part;
    let n = old_part.len() as int;
    lemma_behind_last(inside, " => "@, n);
    lemma_behind_last(back, " => "@, 0);
    assert(inside.skip(n + 4) =~= new_part);
    text_laws::lemma_find_char(inside, '{');
    text_laws::lemma_find_char(inside, '}');
    text_laws::lemma_find_char(back, '{');
    text_laws::lemma_find_char(back, '}');
    if text::find(inside, seq!['{']) is Some {
        assert(inside.contains(inside[text::find(inside, seq!['{'])->0]));
    }
    if text::find(inside, seq!['}']) is Some {
        assert(inside.contains(inside[text::find(inside, seq!['}'])->0]));
    }
    if text::find(back, seq!['{']) is Some {
        assert(back.contains(back[text::find(back, seq!['{'])->0]));
    }
    if text::find(back, seq!['}']) is Some {
        assert(back.contains(back[text::find(back, seq!['}'])->0]));
    }
    if !front.contains('{') && !front.contains('}') && !inside.contains('}') {
        let path = front + seq!['{'] + inside + seq!['}'] + back;
        let k = front.len() as int;
        let m = inside.len() as int;
        assert(path =~= front + seq!['{'] + (inside + seq!['}'] + back));
        lemma_first_place(front, '{', inside + seq!['}'] + back);
        let head = front + seq!['{'] + inside;
        assert forall|i: int| 0 <= i < head.len() implies head[i] != '}' by {
            if i < k {
                assert(front.contains(front[i]));
            } else if i > k {
                assert(inside[i - k - 1] == head[i]);
                assert(inside.contains(inside[i - k - 1]));
            }
        }
        assert(path =~= head + seq!['}'] + back);
        lemma_first_place(head, '}', back);
        assert(path.take(k) =~= front);
        assert(path.subrange(k + 1, k + 1 + m) =~= inside);
        assert(path.skip(k + 1 + m + 1) =~= back);
    }
}

/// On Unix, a file that is told by its path in a repository is the one behind the
/// repository's path.
pub open spec fn is_file_of(
    path: Seq<char>,
    repo: Seq<char>,
    file: Seq<char>,
    platform: Platform,
) -> bool {
    !(platform is Windows) && repo.len() > 0 && repo.last() != '/' && file.len() > 0 && file[0]
        != '/' ==> path == repo + seq!['/'] + file
}

/// The lines of a file that the differences do not tell of are counted from its
/// text: all of them are added. Its size is looked at first, and a file of more
/// than a mebibyte is not read and counts nothing, nor does one that cannot be
/// looked at or read. On Unix the file is the one of its path in the repository.
pub proof fn files_are_counted_by_their_text(
    repo: Seq<char>,
    file: Seq<char>,
    platform: Platform,
    replies: Seq<ReplyView>,
    r: GitStep<(u32, u32)>,
)
    requires
        r@ == listing::count_lines_step(repo, file, platform, replies),
    ensures
        replies.len() == 0 ==> (r matches GitStep::Do(GitAction::FileSize { path }) && is_file_of(
            path@,
            repo,
            file,
            platform,
        )),
        replies.len() > 0 && replies[0] == ReplyView::FileSize(None) ==> r == GitStep::<
            (u32, u32),
        >::Done(Ok((0, 0))),
        replies.len() > 0 ==> (replies[0] matches ReplyView::FileSize(Some(n)) ==> {
            &&& n > 1048576 ==> r == GitStep::<(u32, u32)>::Done(Ok((0, 0)))
            &&& n <= 1048576 && replies.len() == 1 ==> (r matches GitStep::Do(
                GitAction::ReadText { path },
            ) && is_file_of(path@, repo, file, platform))
            &&& n <= 1048576 && replies.len() > 1 ==> {
                &&& replies[1] == ReplyView::Text(None) ==> r == GitStep::<(u32, u32)>::Done(
                    Ok((0, 0)),
                )
                &&& replies[1] matches ReplyView::Text(Some(t)) ==> (text::lines(t).len()
                    <= u32::MAX ==> (r matches GitStep::Done(Ok((a, d))) && a == text::lines(
                    t,
                ).len() && d == 0))
            }
        }),
{
    assert(repo.push('/') + file =~= repo + seq!['/'] + file);
}

/// What git is asked about the changed files after some replies.
pub open spec fn change_question(n: int) -> Seq<Seq<char>> {
    if n == 1 {
        seq!["rev-parse"@, "--is-inside-work-tree"@]
    } else if n == 2 {
        seq!["status"@, "--porcelain"@, "--untracked-files=all"@]
    } else {
        seq!["diff"@, "HEAD"@, "--numstat"@]
    }
}

/// To list the changed files, first the path is looked at, then git is asked
/// whether there is a repository, for the status with every untracked file, and
/// for the differences to the last commit; then the lines of files are counted
/// that are in the status and not in the differences. All of it is asked of the
/// path that was given.
pub proof fn changes_are_only_asked_for(
    path: Seq<char>,
    platform: Platform,
    replies: Seq<ReplyView>,
    r: GitStep<Vec<ChangedFile>>,
)
    requires
        r@ == listing::changed_files_step(path, platform, replies),
        r is Do,
        replies.len() > 0 ==> replies[0] is Exists,
        forall|k: int| 1 <= k < replies.len() && k < 4 ==> (#[trigger] replies[k]) is Ran,
    ensures
        replies.len() == 0 ==> (r matches GitStep::Do(GitAction::PathExists { path: p }) && p@
            == path),
        1 <= replies.len() <= 3 ==> (r matches GitStep::Do(GitAction::Git { dir, args }) && dir@
            == path && args.deep_view() == change_question(replies.len() as int)),
        replies.len() >= 4 ==> (r matches GitStep::Do(GitAction::CountLines { dir, files }) && dir@
            == path && files@.len() > 0 && forall|j: int|
            0 <= j < files@.len() ==> !changes::numstat(
                text::lines(told_changes(replies[3])),
            ).contains_key((#[trigger] files@[j])@)),
{
    if replies.len() > 1 {
        assert(replies[1] is Ran);
    }
    if replies.len() > 2 {
        assert(replies[2] is Ran);
    }
    if replies.len() > 3 {
        assert(replies[3] is Ran);
        let files = r->Do_0->CountLines_files;
        let status = state_laws::wrote(replies[2])->0;
        let rows = changes::status_rows(text::lines(status));
        assert(text::lines(Seq::<char>::empty()) =~= seq![]);
        let stats = changes::numstat(text::lines(told_changes(replies[3])));
        assert(files.deep_view() == changes::uncounted(rows, stats));
        assert forall|j: int| 0 <= j < files@.len() implies !stats.contains_key(
            (#[trigger] files@[j])@,
        ) by {
            assert(files.deep_view()[j] == files@[j]@);
            lemma_uncounted(rows, stats, j);
        }
    }
}

proof fn lemma_uncounted(rows: Seq<RowView>, stats: Map<Seq<char>, (u32, u32)>, j: int)
    requires
        0 <= j < changes::uncounted(rows, stats).len(),
    ensures
        !stats.contains_key(changes::uncounted(rows, stats)[j]),
    decreases rows.len(),
{
    if rows.len() > 0 {
        let front = rows.drop_last();
        if j < changes::uncounted(front, stats).len() {
            lemma_uncounted(front, stats, j);
        }
    }
}

/// Nothing has changed outside of a repository, and where the status is blank.
pub proof fn blank_statuses_list_nothing(
    path: Seq<char>,
    platform: Platform,
    replies: Seq<ReplyView>,
    r: GitStep<Vec<ChangedFile>>,
)
    requires
        r@ == listing::changed_files_step(path, platform, replies),
        replies.len() > 1,
        replies[0] == ReplyView::Exists(true),
        replies[1] is Ran,
    ensures
        !(state_laws::wrote(replies[1]) matches Some(t) && text::trimmed(t) == "true"@) ==> (
        r matches GitStep::Done(Ok(files)) && files@.len() == 0),
        (state_laws::wrote(replies[1]) matches Some(t) && text::trimmed(t) == "true"@)
            && replies.len() > 2 ==> (state_laws::wrote(replies[2]) matches Some(t) ==> (
        text::trimmed(t).len() == 0 ==> (r matches GitStep::Done(Ok(files)) && files@.len() == 0))),
{
    if r matches GitStep::Done(Ok(_)) {
        let files = r->Done_0->Ok_0;
        assert(files.deep_view().len() == files@.len());
    }
}

/// Where the path does not exist, or the status cannot be had, the failure is
/// told; where git fails at it, with the question and what git wrote.
pub proof fn failures_to_list_are_told(
    path: Seq<char>,
    platform: Platform,
    replies: Seq<ReplyView>,
    r: GitStep<Vec<ChangedFile>>,
)
    requires
        r@ == listing::changed_files_step(path, platform, replies),
        replies.len() > 0,
    ensures
        replies[0] == ReplyView::Exists(false) ==> (r matches GitStep::Done(Err(e)) && e.message@
            == "Path does not exist: "@ + path && e.cause is None),
        replies.len() > 2 && replies[0] == ReplyView::Exists(true) && (state_laws::wrote(
            replies[1],
        ) matches Some(t) && text::trimmed(t) == "true"@) ==> {
            &&& replies[2] matches ReplyView::Ran { success, stdout, stderr } ==> (!success ==> (
            r matches GitStep::Done(Err(e)) && e.message@ == state_laws::complaint(
                change_question(2),
                stdout,
                stderr,
            ) && e.cause is None))
            &&& replies[2] matches ReplyView::NotRun(cause) ==> (r matches GitStep::Done(Err(e))
                && e.message@ == "Failed to run git"@ && e.cause.deep_view() == Some(cause))
        },
{
}

} // verus!
