//! What holds of the git operations as a whole.

use crate::git::changes;
use crate::git::changes::RowView;
use crate::git::counter;
use crate::git::counter::CounterView;
use crate::git::exchange;
use crate::git::exchange::{ActionView, ReplyView, StepView};
use crate::git::listing;
use crate::git::operations;
use crate::git::parse;
use crate::git::types;
use crate::git::types::ChangedView;
use crate::git::worktree;
use crate::order;
use crate::paths;
use crate::paths::Seps;
use crate::platform::Platform;
use crate::text;
use vstd::prelude::*;

verus! {

/// What is left without a tail of one character is a front of the text.
pub proof fn lemma_without_tail(s: Seq<char>, c: char)
    ensures
        text::without_tail(s, c).len() <= s.len(),
        text::without_tail(s, c) == s.take(text::without_tail(s, c).len() as int),
        text::without_tail(s, c).len() > 0 ==> text::without_tail(s, c).last() != c,
        text::without_tail(text::without_tail(s, c), c) == text::without_tail(s, c),
    decreases s.len(),
{
    if s.len() > 0 && s.last() == c {
        lemma_without_tail(s.drop_last(), c);
        let n = text::without_tail(s, c).len() as int;
        assert(s.drop_last().take(n) =~= s.take(n));
    } else {
        assert(s.take(s.len() as int) =~= s);
    }
}

/// A normal path holds no backslash, does not end in a slash, and is its own
/// normal path.
pub proof fn normal_paths_stay(path: Seq<char>)
    ensures
        !parse::normal_path(path).contains('\\'),
        parse::normal_path(path).len() > 0 ==> parse::normal_path(path).last() != '/',
        parse::normal_path(parse::normal_path(path)) == parse::normal_path(path),
{
    let slashed = parse::slashed(path);
    lemma_without_tail(slashed, '/');
    let normal = parse::normal_path(path);
    assert forall|i: int| 0 <= i < normal.len() implies normal[i] != '\\' by {
        assert(normal[i] == slashed[i]);
    }
    assert(parse::slashed(normal) =~= normal);
}

/// No operation runs git, or makes a directory, before it knows that the path
/// exists; one whose path does not exist ends in an error that says so.
pub proof fn missing_paths_are_refused(
    path: Seq<char>,
    args: Seq<Seq<char>>,
    name: Seq<char>,
    branch: Seq<char>,
    create_branch: bool,
    base_branch: Option<Seq<char>>,
    platform: Platform,
    replies: Seq<ReplyView>,
)
    requires
        replies.len() == 0 || replies[0] == ReplyView::Exists(false),
    ensures
        ({
            let e = types::plain_error("Path does not exist: "@ + path);
            let ask = ActionView::PathExists { path };
            let base = match base_branch {
                Some(base) => base,
                None => seq![],
            };
            if replies.len() == 0 {
                &&& operations::single_run(path, args, replies) == StepView::<()>::Do(ask)
                &&& operations::create_branch_step(path, name, base, replies) == StepView::<
                    (),
                >::Do(ask)
                &&& operations::git_state_step(path, platform, replies) == StepView::<
                    types::GitStateView,
                >::Do(ask)
                &&& operations::create_worktree_step(
                    path,
                    name,
                    branch,
                    create_branch,
                    base_branch,
                    platform,
                    replies,
                ) == StepView::<types::CreatedView>::Do(ask)
                &&& listing::changed_files_step(path, platform, replies) == StepView::<
                    Seq<ChangedView>,
                >::Do(ask)
            } else {
                &&& operations::single_run(path, args, replies) == StepView::<()>::Done(Err(e))
                &&& operations::create_branch_step(path, name, base, replies) == StepView::<
                    (),
                >::Done(Err(e))
                &&& operations::git_state_step(path, platform, replies) == StepView::<
                    types::GitStateView,
                >::Done(Err(e))
                &&& operations::create_worktree_step(
                    path,
                    name,
                    branch,
                    create_branch,
                    base_branch,
                    platform,
                    replies,
                ) == StepView::<types::CreatedView>::Done(Err(e))
                &&& listing::changed_files_step(path, platform, replies) == StepView::<
                    Seq<ChangedView>,
                >::Done(Err(e))
            }
        }),
{
}

/// Outside of a repository the state is that of no repository, and no file has
/// changed, whatever git wrote.
pub proof fn elsewhere_is_no_repository(
    path: Seq<char>,
    stdout: Seq<u8>,
    stderr: Seq<u8>,
    more: Seq<ReplyView>,
    platform: Platform,
)
    ensures
        ({
            let replies = seq![
                ReplyView::Exists(true),
                ReplyView::Ran { success: false, stdout, stderr },
            ] + more;
            &&& operations::git_state_step(path, platform, replies) == StepView::Done(
                Ok(types::no_repository()),
            )
            &&& listing::changed_files_step(path, platform, replies) == StepView::Done(
                Ok(Seq::<ChangedView>::empty()),
            )
        }),
{
    let replies = seq![
        ReplyView::Exists(true),
        ReplyView::Ran { success: false, stdout, stderr },
    ] + more;
    assert(replies[0] == ReplyView::Exists(true));
    assert(replies[1] == (ReplyView::Ran { success: false, stdout, stderr }));
}

/// An operation that is over stays over, whatever replies come behind those that
/// it has.
pub proof fn finished_operations_stay(
    path: Seq<char>,
    args: Seq<Seq<char>>,
    name: Seq<char>,
    branch: Seq<char>,
    create_branch: bool,
    base_branch: Option<Seq<char>>,
    platform: Platform,
    replies: Seq<ReplyView>,
    more: Seq<ReplyView>,
)
    ensures
        !(operations::single_run(path, args, replies) is Do) ==> operations::single_run(
            path,
            args,
            replies + more,
        ) == operations::single_run(path, args, replies),
        !(operations::create_branch_step(path, name, branch, replies) is Do)
            ==> operations::create_branch_step(path, name, branch, replies + more)
            == operations::create_branch_step(path, name, branch, replies),
        !(operations::git_state_step(path, platform, replies) is Do) ==> operations::git_state_step(
            path,
            platform,
            replies + more,
        ) == operations::git_state_step(path, platform, replies),
        !(operations::create_worktree_step(
            path,
            name,
            branch,
            create_branch,
            base_branch,
            platform,
            replies,
        ) is Do) ==> operations::create_worktree_step(
            path,
            name,
            branch,
            create_branch,
            base_branch,
            platform,
            replies + more,
        ) == operations::create_worktree_step(
            path,
            name,
            branch,
            create_branch,
            base_branch,
            platform,
            replies,
        ),
        !(listing::changed_files_step(path, platform, replies) is Do)
            ==> listing::changed_files_step(path, platform, replies + more)
            == listing::changed_files_step(path, platform, replies),
{
    let all = replies + more;
    assert forall|i: int| 0 <= i < replies.len() implies #[trigger] all[i] == replies[i] by {}
}

/// A reply answers the action that counting wants.
pub open spec fn answers(counting: CounterView, reply: ReplyView) -> bool {
    match counter::wanted_action(counting) {
        Some(ActionView::FileSize { .. }) => reply is FileSize,
        Some(ActionView::ReadText { .. }) => reply is Text,
        _ => false,
    }
}

/// Each reply answers the action that counting wants when it has those before.
pub open spec fn all_answer(counting: CounterView, replies: Seq<ReplyView>) -> bool
    decreases replies.len(),
{
    replies.len() == 0 || {
        &&& all_answer(counting, replies.drop_last())
        &&& answers(counter::told_all(counting, replies.drop_last()), replies.last())
    }
}

/// The count at `k` is that of the file at `k` alone, by the replies from its
/// place to the next.
pub open spec fn is_own_count(
    counting: CounterView,
    replies: Seq<ReplyView>,
    places: Seq<int>,
    k: int,
) -> bool {
    &&& 0 <= places[k] < places[k + 1] <= replies.len()
    &&& listing::count_lines_step(
        counting.dir,
        counting.files[k],
        counting.platform,
        replies.subrange(places[k], places[k + 1]),
    ) == StepView::Done(Ok(counting.counts[k]))
}

/// Counting files one after the other gives for each file what counting it alone
/// gives, by the replies that follow those for the file before; and it ends only
/// when all files are counted. `places` tells where the replies for each file
/// begin, and where those for the file at hand do.
pub proof fn each_file_is_counted_by_itself(
    dir: Seq<char>,
    files: Seq<Seq<char>>,
    platform: Platform,
    replies: Seq<ReplyView>,
) -> (places: Seq<int>)
    requires
        all_answer(counter::fresh_counter(dir, files, platform), replies),
    ensures
        ({
            let counting = counter::told_all(
                counter::fresh_counter(dir, files, platform),
                replies,
            );
            &&& counting.dir == dir && counting.files == files && counting.platform == platform
            &&& counting.counts.len() <= files.len()
            &&& places.len() == counting.counts.len() + 1
            &&& places[0] == 0
            &&& 0 <= places.last() <= replies.len()
            &&& forall|k: int|
                0 <= k < counting.counts.len() ==> #[trigger] is_own_count(
                    counting,
                    replies,
                    places,
                    k,
                )
            &&& counter::own_replies(counting) == replies.skip(places.last())
            &&& counting.size matches Some(n) ==> n <= listing::MAX_LINE_COUNT_SIZE
            &&& counter::wanted_action(counting) is None ==> counting.counts.len() == files.len()
        }),
    decreases replies.len(),
{
    let fresh = counter::fresh_counter(dir, files, platform);
    if replies.len() == 0 {
        assert(replies.skip(0) =~= seq![]);
        seq![0]
    } else {
        let front = replies.drop_last();
        let reply = replies.last();
        let before = each_file_is_counted_by_itself(dir, files, platform, front);
        let old = counter::told_all(fresh, front);
        let new = counter::told_all(fresh, replies);
        let n = replies.len() as int;
        let own = counter::own_replies(old).push(reply);
        assert(own =~= replies.skip(before.last()));
        assert(replies.skip(before.last()) =~= replies.subrange(before.last(), n));
        let places = if counter::file_step(old, own) is Done {
            before.push(n)
        } else {
            before
        };
        assert forall|k: int| 0 <= k < new.counts.len() implies #[trigger] is_own_count(
            new,
            replies,
            places,
            k,
        ) by {
            if k < old.counts.len() {
                assert(is_own_count(old, front, before, k));
                assert(front.subrange(before[k], before[k + 1]) =~= replies.subrange(
                    before[k],
                    before[k + 1],
                ));
            }
        }
        if counter::file_step(old, own) is Done {
            assert(replies.skip(n) =~= seq![]);
        } else {
            assert(counter::own_replies(new) =~= own);
        }
        places
    }
}

/// The added and deleted lines of the row at `i`: those of the diff, or else the
/// next of `counts`.
pub open spec fn row_count(
    rows: Seq<RowView>,
    stats: Map<Seq<char>, (u32, u32)>,
    counts: Seq<(u32, u32)>,
    i: int,
) -> (u32, u32) {
    if stats.contains_key(rows[i].path) {
        stats[rows[i].path]
    } else {
        counts[changes::uncounted(rows.take(i), stats).len() as int]
    }
}

/// The file that is listed for the row at `i`.
pub open spec fn row_file(
    rows: Seq<RowView>,
    stats: Map<Seq<char>, (u32, u32)>,
    counts: Seq<(u32, u32)>,
    i: int,
) -> ChangedView {
    let count = row_count(rows, stats, counts, i);
    ChangedView {
        path: rows[i].path,
        status: rows[i].status,
        additions: count.0,
        deletions: count.1,
    }
}

/// The count that a row without one in the diff gets is that of its own file.
pub proof fn counts_go_to_their_files(
    rows: Seq<RowView>,
    stats: Map<Seq<char>, (u32, u32)>,
    i: int,
)
    requires
        0 <= i < rows.len(),
        !stats.contains_key(rows[i].path),
    ensures
        ({
            let place = changes::uncounted(rows.take(i), stats).len() as int;
            place < changes::uncounted(rows, stats).len() && changes::uncounted(rows, stats)[place]
                == rows[i].path
        }),
    decreases rows.len(),
{
    let front = rows.drop_last();
    if i < front.len() {
        counts_go_to_their_files(front, stats, i);
        assert(front.take(i) =~= rows.take(i));
    } else {
        assert(front =~= rows.take(i));
    }
}

proof fn lemma_counted_files(
    rows: Seq<RowView>,
    stats: Map<Seq<char>, (u32, u32)>,
    counts: Seq<(u32, u32)>,
)
    ensures
        changes::counted_files(rows, stats, counts).len() == rows.len(),
        forall|i: int|
            0 <= i < rows.len() ==> #[trigger] changes::counted_files(rows, stats, counts)[i]
                == row_file(rows, stats, counts, i),
    decreases rows.len(),
{
    if rows.len() > 0 {
        let front = rows.drop_last();
        lemma_counted_files(front, stats, counts);
        let before = changes::counted_files(front, stats, counts);
        let all = changes::counted_files(rows, stats, counts);
        assert forall|i: int| 0 <= i < rows.len() implies #[trigger] all[i] == row_file(
            rows,
            stats,
            counts,
            i,
        ) by {
            if i < rows.len() - 1 {
                assert(all[i] == before[i]);
                assert(front.take(i) =~= rows.take(i));
            } else {
                assert(front =~= rows.take(i));
            }
        }
    }
}

/// Each file that the status lists is listed once as changed, with its status
/// and its lines, and the paths of the list ascend. `order` gives the place of each listed file
/// in the status.
pub proof fn changed_files_are_sorted_and_complete(
    rows: Seq<RowView>,
    stats: Map<Seq<char>, (u32, u32)>,
    counts: Seq<(u32, u32)>,
) -> (order: Seq<usize>)
    requires
        rows.len() <= usize::MAX,
    ensures
        ({
            let files = changes::changed_files(rows, stats, counts);
            &&& files.len() == rows.len()
            &&& order.len() == rows.len()
            &&& order.no_duplicates()
            &&& forall|k: int| 0 <= k < order.len() ==> #[trigger] order[k] < rows.len()
            &&& forall|i: usize| i < rows.len() ==> #[trigger] order.contains(i)
            &&& forall|k: int|
                0 <= k < files.len() ==> #[trigger] files[k] == row_file(
                    rows,
                    stats,
                    counts,
                    order[k] as int,
                )
            &&& forall|i: int, j: int|
                #![trigger files[i], files[j]]
                0 <= i < j < files.len() ==> !order::text_before(files[j].path, files[i].path)
        }),
{
    let unsorted = changes::counted_files(rows, stats, counts);
    let keys = changes::path_keys(unsorted);
    lemma_counted_files(rows, stats, counts);
    let order = order::sorting_keeps_every_item(keys, unsorted);
    let files = changes::changed_files(rows, stats, counts);
    assert forall|k: int| 0 <= k < files.len() implies #[trigger] files[k] == row_file(
        rows,
        stats,
        counts,
        order[k] as int,
    ) by {
        assert(files[k] == unsorted[order[k] as int]);
        assert(0 <= order[k] < keys.len());
    }
    assert forall|i: int, j: int|
        #![trigger files[i], files[j]]
        0 <= i < j < files.len() implies !order::text_before(files[j].path, files[i].path) by {
        let a = order[i] as int;
        let b = order[j] as int;
        assert(order::goes_before(keys, a, b));
        assert(0 <= order[i] < keys.len() && 0 <= order[j] < keys.len());
        assert(keys[a].primary == files[i].path && keys[b].primary == files[j].path);
        order::text_order_is_irreflexive(files[i].path);
        order::text_order_is_irreflexive(Seq::<char>::empty());
        if order::text_before(files[i].path, files[j].path) && order::text_before(
            files[j].path,
            files[i].path,
        ) {
            order::text_order_is_transitive(files[i].path, files[j].path, files[i].path);
        }
    }
    order
}

/// Where the status is clean no file has changed, and no difference is asked
/// for.
pub proof fn clean_repositories_have_no_changes(
    path: Seq<char>,
    platform: Platform,
    replies: Seq<ReplyView>,
)
    requires
        replies.len() > 2,
        replies[0] == ReplyView::Exists(true),
        operations::inside_worktree(path, replies, 1) == exchange::ProgressView::Go(true),
        exchange::git_output(
            path,
            seq!["status"@, "--porcelain"@, "--untracked-files=all"@],
            replies,
            2,
        ) matches exchange::ProgressView::Go(status) && text::trimmed(status).len() == 0,
    ensures
        listing::changed_files_step(path, platform, replies) == StepView::Done(
            Ok(Seq::<ChangedView>::empty()),
        ),
{
}

/// A text without separators.
pub open spec fn is_bare(name: Seq<char>, seps: Seps) -> bool {
    forall|i: int| 0 <= i < name.len() ==> !paths::is_sep(#[trigger] name[i], seps)
}

/// What stands behind the last separator is the last piece.
pub proof fn lemma_last_piece(base: Seq<char>, sep: char, name: Seq<char>, start: int, seps: Seps)
    requires
        0 <= start <= base.len() + 1,
        paths::is_sep(sep, seps),
        is_bare(name, seps),
    ensures
        paths::piece_start(base.push(sep) + name, start, seps) == base.len() + 1,
    decreases name.len(),
{
    let whole = base.push(sep) + name;
    if name.len() == 0 {
        assert(whole =~= base.push(sep));
    } else {
        let front = name.drop_last();
        assert(whole.drop_last() =~= base.push(sep) + front);
        assert(whole.last() == name[name.len() - 1]);
        assert forall|i: int| 0 <= i < front.len() implies !paths::is_sep(
            #[trigger] front[i],
            seps,
        ) by {
            assert(front[i] == name[i]);
        }
        lemma_last_piece(base, sep, front, start, seps);
    }
}

/// Where no separator follows the start, there is one piece.
pub proof fn lemma_only_piece(base: Seq<char>, name: Seq<char>, seps: Seps)
    requires
        is_bare(name, seps),
    ensures
        paths::piece_start(base + name, base.len() as int, seps) == base.len(),
    decreases name.len(),
{
    let whole = base + name;
    if name.len() > 0 {
        let front = name.drop_last();
        assert(whole.drop_last() =~= base + front);
        assert(whole.last() == name[name.len() - 1]);
        assert forall|i: int| 0 <= i < front.len() implies !paths::is_sep(
            #[trigger] front[i],
            seps,
        ) by {
            assert(front[i] == name[i]);
        }
        lemma_only_piece(base, front, seps);
    } else {
        assert(whole =~= base);
    }
}

/// Where a path that is not in the verbatim form is nothing but a prefix that
/// ends in a separator, the prefix is that of a device without a name.
proof fn lemma_prefix_end(p: Seq<char>, platform: Platform)
    requires
        !paths::verbatim(p, platform),
        p.len() > 0,
        paths::prefix_len(p, platform) == p.len(),
        paths::is_sep(p.last(), paths::plain_seps(platform)),
    ensures
        platform is Windows,
        p.len() == 4,
        p[2] == '.',
        paths::is_sep(p[0], Seps::Both) && paths::is_sep(p[1], Seps::Both) && paths::is_sep(
            p[3],
            Seps::Both,
        ),
{
    if p.len() >= 2 {
        paths::lemma_piece_end(p, 2, Seps::Both);
        let host = paths::piece_end(p, 2, Seps::Both);
        if host < p.len() {
            paths::lemma_piece_end(p, host + 1, Seps::Both);
        }
        if p.len() >= 4 {
            paths::lemma_piece_end(p, 4, Seps::Both);
        }
    }
}

/// A text that does not hold a text of one character does not hold the
/// character.
pub proof fn lemma_has_not(name: Seq<char>, c: char, pat: Seq<char>)
    requires
        pat == seq![c],
        !text::has(name, pat),
    ensures
        forall|i: int| 0 <= i < name.len() ==> #[trigger] name[i] != c,
{
    text::lemma_find(name, pat);
    assert forall|i: int| 0 <= i < name.len() implies #[trigger] name[i] != c by {
        assert(!text::occurs_at(name, pat, i));
        if name[i] == c {
            assert(name.subrange(i, i + 1) =~= pat);
        }
    }
}

proof fn lemma_tail_is_bare(q: Seq<char>, start: int, seps: Seps)
    requires
        0 <= start <= q.len(),
    ensures
        start <= paths::piece_start(q, start, seps) <= q.len(),
        is_bare(q.skip(paths::piece_start(q, start, seps)), seps),
    decreases q.len(),
{
    if q.len() > start && !paths::is_sep(q.last(), seps) {
        let front = q.drop_last();
        lemma_tail_is_bare(front, start, seps);
        let at = paths::piece_start(q, start, seps);
        assert forall|i: int| 0 <= i < q.skip(at).len() implies !paths::is_sep(
            #[trigger] q.skip(at)[i],
            seps,
        ) by {
            if i < q.len() - 1 - at {
                assert(front.skip(at)[i] == q[at + i]);
            }
        }
    }
}

/// A piece with a name: it holds no separator and is not empty.
pub open spec fn is_named(piece: Seq<char>, seps: Seps) -> bool {
    piece.len() > 0 && is_bare(piece, seps)
}

proof fn lemma_pieces_are_named(p: Seq<char>, start: int, seps: Seps)
    requires
        0 <= start,
    ensures
        forall|k: int|
            0 <= k < paths::pieces(p, start, seps).len() ==> is_named(
                #[trigger] paths::pieces(p, start, seps)[k],
                seps,
            ),
    decreases p.len(),
{
    if p.len() > start {
        lemma_tail_is_bare(p, start, seps);
        let at = paths::piece_start(p, start, seps);
        let cut = if at > start {
            at - 1
        } else {
            start
        };
        lemma_pieces_are_named(p.take(cut), start, seps);
        let before = paths::pieces(p.take(cut), start, seps);
        let all = paths::pieces(p, start, seps);
        assert forall|k: int| 0 <= k < all.len() implies is_named(#[trigger] all[k], seps) by {
            if k < before.len() {
                assert(all[k] == before[k]);
            }
        }
    }
}

/// The pieces of a path that was made of pieces are those.
pub proof fn lemma_pieces_come_back(front: Seq<char>, way: Seq<Seq<char>>)
    requires
        way.len() > 0,
        forall|k: int| 0 <= k < way.len() ==> is_named(#[trigger] way[k], Seps::Backslash),
    ensures
        ({
            let whole = front + text::joined(way, seq!['\\']);
            let start = front.len() as int;
            &&& paths::pieces(whole, start, Seps::Backslash) == way
            &&& paths::piece_start(whole, start, Seps::Backslash) == whole.len() - way.last().len()
            &&& whole.len() >= front.len() + way.last().len()
            &&& whole.skip(whole.len() - way.last().len()) == way.last()
        }),
    decreases way.len(),
{
    let whole = front + text::joined(way, seq!['\\']);
    let start = front.len() as int;
    let last = way.last();
    assert(is_named(way[way.len() - 1], Seps::Backslash));
    if way.len() == 1 {
        assert(whole =~= front + last);
        lemma_only_piece(front, last, Seps::Backslash);
        assert(whole.take(start) =~= front);
        assert(paths::pieces(front, start, Seps::Backslash) =~= seq![]);
        assert(whole.skip(start) =~= last);
        assert(paths::pieces(whole, start, Seps::Backslash) =~= way);
    } else {
        let less = way.drop_last();
        assert forall|k: int| 0 <= k < less.len() implies is_named(
            #[trigger] less[k],
            Seps::Backslash,
        ) by {
            assert(less[k] == way[k]);
        }
        lemma_pieces_come_back(front, less);
        let base = front + text::joined(less, seq!['\\']);
        assert(whole =~= base.push('\\') + last);
        lemma_last_piece(base, '\\', last, start, Seps::Backslash);
        assert(whole.take(base.len() as int) =~= base);
        assert(whole.skip(base.len() as int + 1) =~= last);
        assert(paths::pieces(whole, start, Seps::Backslash) =~= way);
    }
}

/// A name that is joined to a path in the verbatim form becomes its last piece.
pub proof fn lemma_verbatim_name(base: Seq<char>, name: Seq<char>, platform: Platform)
    requires
        paths::verbatim(base, platform),
        is_named(name, Seps::Both),
        !paths::is_dots(name),
        paths::prefix_len(name, platform) == 0,
    ensures
        ({
            let way = paths::pieces(base, paths::body_start(base, platform), Seps::Backslash);
            paths::joined_path(base, name, platform) == base.take(
                paths::prefix_len(base, platform),
            ).push('\\') + text::joined(way.push(name), seq!['\\'])
        }),
{
    assert(!paths::is_sep(name[0], Seps::Both));
    if name.len() > 1 {
        assert(!paths::is_sep(name[1], Seps::Both));
    }
    if name.len() == 1 && name[0] == '.' {
        assert(name =~= seq!['.']);
    }
    assert(paths::body_start(name, platform) == 0);
    let none = Seq::<char>::empty();
    assert(none + name =~= name);
    lemma_only_piece(none, name, Seps::Both);
    assert(name.take(0) =~= none);
    assert(name.skip(0) =~= name);
    let steps = paths::pieces(name, 0, Seps::Both);
    assert(paths::pieces(none, 0, Seps::Both) =~= seq![]);
    assert(steps =~= seq![name]);
    let way = paths::pieces(base, paths::body_start(base, platform), Seps::Backslash);
    assert(steps.drop_last() =~= seq![]);
    assert(paths::walked(way, steps.drop_last()) == way);
    assert(paths::walked(way, steps) == way.push(name));
}

/// A folder that is joined to a directory keeps its name, and the path is tidy;
/// and what is joined to that stands right behind it.
proof fn lemma_folder_name(
    up: Seq<char>,
    folder: Seq<char>,
    beside: Seq<char>,
    name: Seq<char>,
    platform: Platform,
)
    requires
        beside == paths::joined_path(up, folder, platform),
        is_bare(folder, paths::plain_seps(platform)),
        folder.len() > 2,
        folder.last() == 's',
        paths::prefix_len(folder, platform) == 0,
        paths::prefix_len(beside, platform) == paths::prefix_len(up, platform),
        is_named(name, paths::plain_seps(platform)),
        !paths::is_dots(name),
        paths::prefix_len(name, platform) == 0,
    ensures
        paths::prefix_len(up, platform) <= beside.len(),
        paths::tidy(beside, platform) == beside,
        paths::file_name(beside, platform) == Some(folder),
        paths::joined_path(beside, name, platform) == beside.push(paths::main_sep(platform)) + name,
{
    let seps = paths::plain_seps(platform);
    assert(!paths::is_sep(folder[0], seps) && !paths::is_sep(folder[1], seps));
    assert(!paths::is_sep(name[0], seps));
    paths::lemma_body_start(up, platform);
    paths::lemma_body_start(beside, platform);
    let start = paths::body_start(beside, platform);
    let front = paths::prefix_len(up, platform);
    if paths::verbatim(up, platform) {
        let prefix = up.take(front);
        let way = paths::pieces(up, paths::body_start(up, platform), Seps::Backslash);
        lemma_verbatim_name(up, folder, platform);
        lemma_pieces_are_named(up, paths::body_start(up, platform), Seps::Backslash);
        let more = way.push(folder);
        assert forall|k: int| 0 <= k < more.len() implies is_named(
            #[trigger] more[k],
            Seps::Backslash,
        ) by {
            if k < way.len() {
                assert(more[k] == way[k]);
            }
        }
        lemma_pieces_come_back(prefix.push('\\'), more);
        assert(beside == prefix.push('\\') + text::joined(more, seq!['\\']));
        assert(beside[0] == up[0] && beside[1] == up[1] && beside[2] == up[2] && beside[3]
            == up[3]);
        assert(paths::verbatim(beside, platform));
        assert(beside[front] == '\\');
        assert(start == front + 1);
        assert(paths::last_piece(beside, platform) =~= folder);
        lemma_verbatim_name(beside, name, platform);
        assert(beside.take(front) =~= prefix);
        assert(more.push(name).drop_last() =~= more);
        assert(prefix.push('\\') + text::joined(more.push(name), seq!['\\']) =~= beside.push('\\')
            + name);
    } else {
        if up.len() == 0 || (up.len() == 2 && front == 2) {
            assert(beside =~= up + folder);
            assert(beside[up.len() as int] == folder[0] && beside[up.len() as int + 1]
                == folder[1]);
            assert(start == up.len());
            lemma_only_piece(up, folder, seps);
        } else if paths::is_sep(up.last(), seps) {
            assert(beside =~= up + folder);
            if front == up.len() {
                lemma_prefix_end(up, platform);
                assert(beside[4] == folder[0] && beside[0] == up[0] && beside[1] == up[1]
                    && beside[2] == up[2] && beside[3] == up[3]);
                paths::lemma_piece_end(beside, 5, Seps::Both);
                assert(paths::piece_end(beside, 4, Seps::Both) == paths::piece_end(
                    beside,
                    5,
                    Seps::Both,
                ));
            }
            assert(up =~= up.drop_last().push(up.last()));
            lemma_last_piece(up.drop_last(), up.last(), folder, start, seps);
        } else {
            lemma_last_piece(up, paths::main_sep(platform), folder, start, seps);
        }
        if paths::verbatim(beside, platform) {
            assert(beside[0] == up[0] && beside[1] == up[1] && beside[2] == up[2] && beside[3]
                == up[3]);
        }
        assert(paths::last_piece(beside, platform) =~= folder);
        assert(beside.last() == 's');
    }
}

/// A new worktree stands under its own name, right in a directory whose name is
/// that of the repository and `-worktrees`. On Windows this leaves out names that
/// are taken for a drive, paths that become the name of a device or a share, and
/// repositories in the verbatim form whose name holds a slash.
pub proof fn worktrees_stand_beside_the_repository(
    value: Seq<char>,
    name: Seq<char>,
    main: Seq<char>,
    target: Seq<char>,
    platform: Platform,
)
    requires
        worktree::worktree_name(value) == Ok::<Seq<char>, types::GitErrorView>(name),
        worktree::worktree_target(main, name, platform) == Ok::<Seq<char>, types::GitErrorView>(
            target,
        ),
        ({
            let folder = paths::file_name(main, platform)->0 + "-worktrees"@;
            let up = paths::parent(main, platform)->0;
            let beside = paths::joined_path(up, folder, platform);
            &&& paths::prefix_len(name, platform) == 0
            &&& paths::prefix_len(folder, platform) == 0
            &&& paths::prefix_len(beside, platform) == paths::prefix_len(up, platform)
            &&& paths::prefix_len(target, platform) == paths::prefix_len(up, platform)
            &&& is_bare(paths::file_name(main, platform)->0, paths::plain_seps(platform))
        }),
    ensures
        paths::file_name(target, platform) == Some(name),
        paths::parent(target, platform) matches Some(beside) && paths::file_name(beside, platform)
            == Some(paths::file_name(main, platform)->0 + "-worktrees"@),
{
    reveal_strlit("-worktrees");
    reveal_strlit("/");
    reveal_strlit("\\");
    reveal_strlit(".");
    reveal_strlit("..");
    assert("/"@ =~= seq!['/']);
    assert("\\"@ =~= seq!['\\']);
    assert("."@ =~= seq!['.']);
    assert(".."@ =~= seq!['.', '.']);
    lemma_has_not(name, '/', "/"@);
    lemma_has_not(name, '\\', "\\"@);
    let seps = paths::plain_seps(platform);
    assert(is_bare(name, seps));
    let repo = paths::file_name(main, platform)->0;
    let up = paths::parent(main, platform)->0;
    let folder = repo + "-worktrees"@;
    assert forall|i: int| 0 <= i < folder.len() implies !paths::is_sep(
        #[trigger] folder[i],
        seps,
    ) by {
        if i >= repo.len() {
            assert(folder[i] == "-worktrees"@[i - repo.len()]);
        } else {
            assert(folder[i] == repo[i]);
        }
    }
    assert(folder.last() == 's');
    let beside = paths::joined_path(up, folder, platform);
    lemma_folder_name(up, folder, beside, name, platform);
    let sep = paths::main_sep(platform);
    assert(target == beside.push(sep) + name);
    paths::lemma_body_start(beside, platform);
    paths::lemma_body_start(target, platform);
    let start = paths::body_start(target, platform);
    assert(start <= beside.len() + 1);
    lemma_last_piece(beside, sep, name, start, paths::seps_of(target, platform));
    assert(paths::last_piece(target, platform) =~= name);
    assert(paths::tidy(target, platform) == target);
    assert(target.take(beside.len() as int) =~= beside);
}

/// On Unix every valid name gives such a path.
pub proof fn unix_worktrees_stand_beside_the_repository(
    value: Seq<char>,
    name: Seq<char>,
    main: Seq<char>,
    target: Seq<char>,
    platform: Platform,
)
    requires
        !(platform is Windows),
        worktree::worktree_name(value) == Ok::<Seq<char>, types::GitErrorView>(name),
        worktree::worktree_target(main, name, platform) == Ok::<Seq<char>, types::GitErrorView>(
            target,
        ),
    ensures
        paths::file_name(target, platform) == Some(name),
        paths::parent(target, platform) matches Some(beside) && paths::file_name(beside, platform)
            == Some(paths::file_name(main, platform)->0 + "-worktrees"@),
{
    let q = paths::tidy(main, platform);
    paths::lemma_body_start(q, platform);
    lemma_tail_is_bare(q, paths::body_start(q, platform), Seps::Slash);
    worktrees_stand_beside_the_repository(value, name, main, target, platform);
}

/// A worktree is added only where nothing stands yet.
pub proof fn worktrees_replace_nothing(
    path: Seq<char>,
    name: Seq<char>,
    branch: Seq<char>,
    create_branch: bool,
    base_branch: Option<Seq<char>>,
    platform: Platform,
    replies: Seq<ReplyView>,
)
    ensures
        ({
            let step = operations::create_worktree_step(
                path,
                name,
                branch,
                create_branch,
                base_branch,
                platform,
                replies,
            );
            let acts = {
                ||| step matches StepView::Do(ActionView::Git { args, .. }) && args[0]
                    == "worktree"@
                ||| step matches StepView::Do(ActionView::CreateDirs { .. })
                ||| step matches StepView::Done(Ok(_))
            };
            acts ==> replies.len() > 3 && replies[3] == ReplyView::Exists(false)
        }),
{
    reveal_strlit("worktree");
    reveal_strlit("rev-parse");
    assert("worktree"@.len() != "rev-parse"@.len());
}

/// How many lines begin with a text.
pub open spec fn count_beginning(ls: Seq<Seq<char>>, front: Seq<char>) -> nat
    decreases ls.len(),
{
    if ls.len() == 0 {
        0
    } else if text::begins(ls.last(), front) {
        count_beginning(ls.drop_last(), front) + 1
    } else {
        count_beginning(ls.drop_last(), front)
    }
}

proof fn lemma_worktree_records(ls: Seq<Seq<char>>)
    ensures
        parse::worktree_records(ls).len() == count_beginning(ls, "worktree "@),
    decreases ls.len(),
{
    if ls.len() > 0 {
        lemma_worktree_records(ls.drop_last());
    }
}

/// A list of worktrees has one for each line that names one, and the main one is
/// known by its path alone.
pub proof fn each_worktree_line_counts(output: Seq<char>, main: Option<Seq<char>>)
    ensures
        parse::worktrees(output, main).len() == count_beginning(
            text::lines(output),
            "worktree "@,
        ),
        forall|i: int|
            0 <= i < parse::worktrees(output, main).len() ==> ((#[trigger] parse::worktrees(
                output,
                main,
            )[i]).is_main <==> main == Some(parse::worktrees(output, main)[i].path)),
{
    lemma_worktree_records(text::lines(output));
}

/// A path without an arrow, and without both braces, was not renamed.
pub proof fn plain_paths_are_not_renamed(path: Seq<char>)
    requires
        !text::has(path, " => "@),
        !text::has(path, seq!['{']) || !text::has(path, seq!['}']),
    ensures
        changes::braces_in_order(path),
        changes::renamed_to(path) == path,
{
}

} // verus!
