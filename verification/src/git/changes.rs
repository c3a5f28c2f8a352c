//! The files that differ from the last commit: the lines of `git status` and
//! the counts of `git diff --numstat`.

use crate::encoding;
use crate::git::types::{ChangedFile, ChangedView};
use crate::numbers;
use crate::order;
use crate::order::{KeyView, SortKey};
use crate::text;
use vstd::hash_map::StringHashMap;
use vstd::prelude::*;
use vstd::slice::slice_subrange;
use vstd::utf8::*;

verus! {

/// The word for the two status columns of a changed file.
pub open spec fn status_word(index: u8, worktree: u8) -> Seq<char> {
    if index == '?' as u8 && worktree == '?' as u8 {
        "untracked"@
    } else if index == 'A' as u8 || index == '?' as u8 {
        "added"@
    } else if index == 'D' as u8 || worktree == 'D' as u8 {
        "deleted"@
    } else if index == 'R' as u8 {
        "renamed"@
    } else if index == 'C' as u8 {
        "copied"@
    } else {
        "modified"@
    }
}

/// The word for the two status columns of a changed file.
pub fn parse_status_codes(index: u8, worktree: u8) -> (r: String)
    ensures
        r@ == status_word(index, worktree),
{
    if index == '?' as u8 && worktree == '?' as u8 {
        return "untracked".to_string();
    }
    if index == 'A' as u8 || (index == '?' as u8 && worktree != '?' as u8) {
        return "added".to_string();
    }
    if index == 'D' as u8 || worktree == 'D' as u8 {
        return "deleted".to_string();
    }
    if index == 'R' as u8 {
        return "renamed".to_string();
    }
    if index == 'C' as u8 {
        return "copied".to_string();
    }
    "modified".to_string()
}

/// A path without the quotes around it.
pub open spec fn unquoted(s: Seq<char>) -> Seq<char> {
    if s.len() >= 2 && s[0] == '"' && s.last() == '"' {
        s.subrange(1, s.len() - 1)
    } else {
        s
    }
}

/// A path without the quotes around it.
pub fn unquote_porcelain(s: &str) -> (r: String)
    ensures
        r@ == unquoted(s@),
{
    let cs = text::chars_of(s);
    let n: usize = cs.len();
    if n >= 2 && cs[0] == '"' && cs[n - 1] == '"' {
        text::text_of(slice_subrange(cs.as_slice(), 1, n - 1))
    } else {
        s.to_string()
    }
}

/// The last piece of `s` behind the separator `sep`.
pub open spec fn behind_last(s: Seq<char>, sep: Seq<char>) -> Seq<char> {
    text::split(s, sep).last()
}

/// The last piece of `s` behind the separator `sep`.
fn last_of_split(s: &str, sep: &str) -> (r: String)
    requires
        sep@.len() > 0,
    ensures
        r@ == behind_last(s@, sep@),
{
    let mut pieces = text::split_text(s, sep);
    let ghost all = pieces.deep_view();
    assert(all.len() == pieces@.len());
    assert(all.last() == pieces@.last()@);
    match pieces.pop() {
        Some(piece) => piece,
        None => s.to_string(),
    }
}

/// The first brace that opens stands before the first one that closes, where a
/// path holds both.
pub open spec fn braces_in_order(path: Seq<char>) -> bool {
    match (text::find(path, seq!['{']), text::find(path, seq!['}'])) {
        (Some(open), Some(close)) => open < close,
        _ => true,
    }
}

/// The new path of a file whose rename is written as `old => new`, with the
/// part that changed in braces where only a part did.
pub open spec fn renamed_to(path: Seq<char>) -> Seq<char> {
    match (text::find(path, seq!['{']), text::find(path, seq!['}'])) {
        (Some(open), Some(close)) => path.take(open) + behind_last(
            path.subrange(open + 1, close),
            " => "@,
        ) + path.skip(close + 1),
        _ => behind_last(path, " => "@),
    }
}

/// The places of the first brace that opens and the first one that closes.
fn find_braces(cs: &[char]) -> (r: (Option<usize>, Option<usize>))
    ensures
        match r.0 {
            Some(k) => text::find(cs@, seq!['{']) == Some(k as int) && k < cs@.len(),
            None => text::find(cs@, seq!['{']) is None,
        },
        match r.1 {
            Some(k) => text::find(cs@, seq!['}']) == Some(k as int) && k < cs@.len(),
            None => text::find(cs@, seq!['}']) is None,
        },
{
    let mut open: Vec<char> = Vec::new();
    open.push('{');
    let mut close: Vec<char> = Vec::new();
    close.push('}');
    assert(open@ =~= seq!['{']);
    assert(close@ =~= seq!['}']);
    (text::find_in(cs, open.as_slice()), text::find_in(cs, close.as_slice()))
}

/// Says whether the braces of a path stand in order.
pub fn has_ordered_braces(path: &str) -> (r: bool)
    ensures
        r == braces_in_order(path@),
{
    let cs = text::chars_of(path);
    match find_braces(cs.as_slice()) {
        (Some(open), Some(close)) => open < close,
        _ => true,
    }
}

/// The new path of a renamed file. A path whose first closing brace stands
/// before its first opening one has none.
pub fn expand_rename_path(path: &str) -> (r: String)
    requires
        braces_in_order(path@),
    ensures
        r@ == renamed_to(path@),
{
    proof {
        reveal_strlit(" => ");
    }
    let cs = text::chars_of(path);
    let n: usize = cs.len();
    match find_braces(cs.as_slice()) {
        (Some(open), Some(close)) => {
            let inner = text::text_of(slice_subrange(cs.as_slice(), open + 1, close));
            let mut out = text::text_of(slice_subrange(cs.as_slice(), 0, open));
            assert(out@ =~= path@.take(open as int));
            out.append(last_of_split(inner.as_str(), " => ").as_str());
            let tail = text::text_of(slice_subrange(cs.as_slice(), close + 1, n));
            assert(tail@ =~= path@.skip(close + 1));
            out.append(tail.as_str());
            out
        },
        _ => last_of_split(path, " => "),
    }
}

/// The path that a line of `git diff --numstat` is about, if it has the three
/// columns.
pub open spec fn numstat_path(line: Seq<char>) -> Option<Seq<char>> {
    let parts = text::split(line, "\t"@);
    if parts.len() >= 3 {
        Some(text::joined(parts.skip(2), "\t"@))
    } else {
        None
    }
}

/// A column of numbers in `git diff --numstat`; a column that is no number
/// counts nothing.
pub open spec fn numstat_count(column: Seq<char>) -> u32 {
    match numbers::parsed_u32(column) {
        Some(n) => n,
        None => 0,
    }
}

/// The added and deleted lines of each file that lines of
/// `git diff --numstat` are about. The last line about a file counts.
pub open spec fn numstat(ls: Seq<Seq<char>>) -> Map<Seq<char>, (u32, u32)>
    decreases ls.len(),
{
    if ls.len() == 0 {
        Map::empty()
    } else {
        let parts = text::split(ls.last(), "\t"@);
        match numstat_path(ls.last()) {
            Some(path) => numstat(ls.drop_last()).insert(
                renamed_to(path),
                (numstat_count(parts[0]), numstat_count(parts[1])),
            ),
            None => numstat(ls.drop_last()),
        }
    }
}

/// The paths of each line have their braces in order.
pub open spec fn numstat_readable(output: Seq<char>) -> bool {
    forall|i: int|
        #![trigger text::lines(output)[i]]
        0 <= i < text::lines(output).len() ==> (numstat_path(text::lines(output)[i]) matches Some(
            path,
        ) ==> braces_in_order(path))
}

/// The three columns of a line of `git diff --numstat`: two counts and a path.
fn numstat_columns(line: &str) -> (r: Option<(u32, u32, String)>)
    ensures
        match r {
            Some((added, deleted, path)) => numstat_path(line@) == Some(path@) && added
                == numstat_count(text::split(line@, "\t"@)[0]) && deleted == numstat_count(
                text::split(line@, "\t"@)[1],
            ),
            None => numstat_path(line@) is None,
        },
{
    proof {
        reveal_strlit("\t");
    }
    let parts = text::split_text(line, "\t");
    assert(parts@.len() == parts.deep_view().len());
    if parts.len() < 3 {
        return None;
    }
    assert(parts.deep_view()[0] == parts@[0]@ && parts.deep_view()[1] == parts@[1]@);
    let added: u32 = match numbers::parse_u32(parts[0].as_str()) {
        Some(n) => n,
        None => 0,
    };
    let deleted: u32 = match numbers::parse_u32(parts[1].as_str()) {
        Some(n) => n,
        None => 0,
    };
    Some((added, deleted, text::join_from(&parts, 2, "\t")))
}

/// Says whether the paths of each line have their braces in order.
pub fn is_readable_numstat(output: &str) -> (r: bool)
    ensures
        r == numstat_readable(output@),
{
    let ls = text::lines_of(output);
    for i in 0..ls.len()
        invariant
            ls.deep_view() == text::lines(output@),
            forall|k: int|
                #![trigger text::lines(output@)[k]]
                0 <= k < i ==> (numstat_path(text::lines(output@)[k]) matches Some(path)
                    ==> braces_in_order(path)),
    {
        assert(text::lines(output@)[i as int] == ls@[i as int]@);
        if let Some((_, _, path)) = numstat_columns(ls[i].as_str()) {
            if !has_ordered_braces(path.as_str()) {
                return false;
            }
        }
    }
    true
}

/// The added and deleted lines of each file in the output of
/// `git diff --numstat`.
pub fn parse_numstat(output: &str) -> (r: StringHashMap<(u32, u32)>)
    requires
        numstat_readable(output@),
    ensures
        r@ == numstat(text::lines(output@)),
{
    let ls = text::lines_of(output);
    let ghost all = ls.deep_view();
    let mut map: StringHashMap<(u32, u32)> = StringHashMap::new();
    for i in 0..ls.len()
        invariant
            all == ls.deep_view(),
            all == text::lines(output@),
            numstat_readable(output@),
            map@ == numstat(all.take(i as int)),
    {
        assert(all.take(i + 1).drop_last() =~= all.take(i as int));
        assert(all.take(i + 1).last() == ls@[i as int]@);
        assert(text::lines(output@)[i as int] == ls@[i as int]@);
        if let Some((added, deleted, path)) = numstat_columns(ls[i].as_str()) {
            map.insert(expand_rename_path(path.as_str()), (added, deleted));
        }
    }
    assert(all.take(all.len() as int) =~= all);
    map
}

/// A changed file as `git status --porcelain` writes it.
pub struct StatusRow {
    pub path: String,
    pub status: String,
}

/// A `StatusRow` with its texts as sequences.
pub struct RowView {
    pub path: Seq<char>,
    pub status: Seq<char>,
}

impl View for StatusRow {
    type V = RowView;

    open spec fn view(&self) -> RowView {
        RowView { path: self.path@, status: self.status@ }
    }
}

impl DeepView for StatusRow {
    type V = RowView;

    open spec fn deep_view(&self) -> RowView {
        self.view()
    }
}

/// A line whose path can be cut off behind the third byte, or that is too short
/// to hold one.
pub open spec fn has_path_column(line: Seq<char>) -> bool {
    encode_utf8(line).len() < 4 || encoding::skip_bytes(line, 3) is Some
}

/// The changed file that a line of `git status --porcelain` is about: two bytes
/// of status, a byte between, and the path, which for a rename stands behind an
/// arrow. A line of less than four bytes is about none.
pub open spec fn status_row(line: Seq<char>) -> Option<RowView> {
    let bytes = encode_utf8(line);
    if bytes.len() < 4 {
        None
    } else {
        let column = encoding::skip_bytes(line, 3).unwrap();
        Some(
            RowView {
                path: behind_last(unquoted(text::trimmed(column)), " -> "@),
                status: status_word(bytes[0], bytes[1]),
            },
        )
    }
}

/// The changed files that lines of `git status --porcelain` are about.
pub open spec fn status_rows(ls: Seq<Seq<char>>) -> Seq<RowView>
    decreases ls.len(),
{
    if ls.len() == 0 {
        seq![]
    } else {
        match status_row(ls.last()) {
            Some(row) => status_rows(ls.drop_last()).push(row),
            None => status_rows(ls.drop_last()),
        }
    }
}

/// Each line has its path column.
pub open spec fn status_readable(output: Seq<char>) -> bool {
    forall|i: int|
        0 <= i < text::lines(output).len() ==> has_path_column(#[trigger] text::lines(output)[i])
}

/// Says whether each line has its path column.
pub fn is_readable_status(output: &str) -> (r: bool)
    ensures
        r == status_readable(output@),
{
    let ls = text::lines_of(output);
    for i in 0..ls.len()
        invariant
            ls.deep_view() == text::lines(output@),
            forall|k: int| 0 <= k < i ==> has_path_column(#[trigger] text::lines(output@)[k]),
    {
        assert(text::lines(output@)[i as int] == ls@[i as int]@);
        if ls[i].as_str().as_bytes().len() >= 4 && encoding::after_bytes(
            ls[i].as_str(),
            3,
        ).is_none() {
            return false;
        }
    }
    true
}

/// The changed file that a line of `git status --porcelain` is about.
pub fn parse_status_line(line: &str) -> (r: Option<StatusRow>)
    requires
        has_path_column(line@),
    ensures
        match r {
            Some(row) => status_row(line@) == Some(row@),
            None => status_row(line@) is None,
        },
{
    proof {
        reveal_strlit(" -> ");
    }
    let bytes = line.as_bytes();
    if bytes.len() < 4 {
        return None;
    }
    match encoding::after_bytes(line, 3) {
        Some(column) => {
            let path = unquote_porcelain(text::trim(column.as_str()).as_str());
            Some(
                StatusRow {
                    path: last_of_split(path.as_str(), " -> "),
                    status: parse_status_codes(bytes[0], bytes[1]),
                },
            )
        },
        None => None,
    }
}

/// The changed files in the output of `git status --porcelain`.
pub fn parse_status(output: &str) -> (r: Vec<StatusRow>)
    requires
        status_readable(output@),
    ensures
        r.deep_view() == status_rows(text::lines(output@)),
{
    let ls = text::lines_of(output);
    let ghost all = ls.deep_view();
    let mut out: Vec<StatusRow> = Vec::new();
    assert(out.deep_view() =~= status_rows(all.take(0)));
    for i in 0..ls.len()
        invariant
            all == ls.deep_view(),
            all == text::lines(output@),
            status_readable(output@),
            out.deep_view() == status_rows(all.take(i as int)),
    {
        assert(all.take(i + 1).drop_last() =~= all.take(i as int));
        assert(all.take(i + 1).last() == ls@[i as int]@);
        assert(text::lines(output@)[i as int] == ls@[i as int]@);
        if let Some(row) = parse_status_line(ls[i].as_str()) {
            let ghost before = out.deep_view();
            out.push(row);
            assert(out.deep_view() =~= before.push(row@));
        }
    }
    assert(all.take(all.len() as int) =~= all);
    out
}

/// The paths that no counts of the last commit's diff are known for.
pub open spec fn uncounted(rows: Seq<RowView>, stats: Map<Seq<char>, (u32, u32)>) -> Seq<Seq<char>>
    decreases rows.len(),
{
    if rows.len() == 0 {
        seq![]
    } else if stats.contains_key(rows.last().path) {
        uncounted(rows.drop_last(), stats)
    } else {
        uncounted(rows.drop_last(), stats).push(rows.last().path)
    }
}

/// The paths that no counts of the last commit's diff are known for.
pub fn uncounted_paths(rows: &Vec<StatusRow>, stats: &StringHashMap<(u32, u32)>) -> (r: Vec<String>)
    ensures
        r.deep_view() == uncounted(rows.deep_view(), stats@),
{
    let ghost all = rows.deep_view();
    let mut out: Vec<String> = Vec::new();
    assert(out.deep_view() =~= uncounted(all.take(0), stats@));
    for i in 0..rows.len()
        invariant
            all == rows.deep_view(),
            out.deep_view() == uncounted(all.take(i as int), stats@),
    {
        assert(all.take(i + 1).drop_last() =~= all.take(i as int));
        assert(all.take(i + 1).last() == rows@[i as int]@);
        if !stats.contains_key(rows[i].path.as_str()) {
            let ghost before = out.deep_view();
            out.push(rows[i].path.clone());
            assert(out.deep_view() =~= before.push(rows@[i as int].path@));
        }
    }
    assert(all.take(all.len() as int) =~= all);
    out
}

/// The changed files in the order of the status lines: the counts of a file are
/// those of the diff, or else the next of `counts`.
pub open spec fn counted_files(
    rows: Seq<RowView>,
    stats: Map<Seq<char>, (u32, u32)>,
    counts: Seq<(u32, u32)>,
) -> Seq<ChangedView>
    decreases rows.len(),
{
    if rows.len() == 0 {
        seq![]
    } else {
        let row = rows.last();
        let count = if stats.contains_key(row.path) {
            stats[row.path]
        } else {
            counts[uncounted(rows.drop_last(), stats).len() as int]
        };
        counted_files(rows.drop_last(), stats, counts).push(
            ChangedView {
                path: row.path,
                status: row.status,
                additions: count.0,
                deletions: count.1,
            },
        )
    }
}

/// What changed files are sorted by.
pub open spec fn path_keys(files: Seq<ChangedView>) -> Seq<KeyView> {
    files.map_values(|f: ChangedView| KeyView { rank: 0, primary: f.path, secondary: seq![] })
}

/// The changed files, sorted by path.
pub open spec fn changed_files(
    rows: Seq<RowView>,
    stats: Map<Seq<char>, (u32, u32)>,
    counts: Seq<(u32, u32)>,
) -> Seq<ChangedView> {
    let files = counted_files(rows, stats, counts);
    order::sorted_items(path_keys(files), files)
}

/// The changed files, sorted by path.
pub fn build_changed_files(
    rows: &Vec<StatusRow>,
    stats: &StringHashMap<(u32, u32)>,
    counts: &Vec<(u32, u32)>,
) -> (r: Vec<ChangedFile>)
    requires
        counts@.len() == uncounted(rows.deep_view(), stats@).len(),
    ensures
        r.deep_view() == changed_files(rows.deep_view(), stats@, counts@),
{
    let ghost all = rows.deep_view();
    let mut files: Vec<ChangedFile> = Vec::new();
    let mut keys: Vec<SortKey> = Vec::new();
    let mut next: usize = 0;
    assert(all.take(all.len() as int) =~= all);
    assert(files.deep_view() =~= counted_files(all.take(0), stats@, counts@));
    for i in 0..rows.len()
        invariant
            all == rows.deep_view(),
            counts@.len() == uncounted(all, stats@).len(),
            files.deep_view() == counted_files(all.take(i as int), stats@, counts@),
            files@.len() == i,
            keys@.len() == i,
            forall|k: int|
                0 <= k < i ==> (#[trigger] keys@[k])@ == (KeyView {
                    rank: 0,
                    primary: files@[k].path@,
                    secondary: seq![],
                }),
            next == uncounted(all.take(i as int), stats@).len(),
    {
        assert(all.take(i + 1).drop_last() =~= all.take(i as int));
        assert(all.take(i + 1).last() == rows@[i as int]@);
        let ghost before = files.deep_view();
        let count: (u32, u32) = match stats.get(rows[i].path.as_str()) {
            Some(count) => *count,
            None => {
                proof {
                    lemma_uncounted_grows(all, stats@, i + 1);
                }
                assert(next < counts.len());
                let count = counts[next];
                next = next + 1;
                count
            },
        };
        let file = ChangedFile {
            path: rows[i].path.clone(),
            status: rows[i].status.clone(),
            additions: count.0,
            deletions: count.1,
        };
        let key = SortKey {
            rank: 0,
            primary: rows[i].path.clone(),
            secondary: String::new(),
        };
        files.push(file);
        keys.push(key);
        assert(files.deep_view() =~= before.push(file@));
    }
    assert(keys.deep_view() =~= path_keys(files.deep_view()));
    let sorted = order::sorted_order(&keys);
    let mut out: Vec<ChangedFile> = Vec::new();
    for i in 0..sorted.len()
        invariant
            files@.len() == sorted@.len(),
            order::is_sorted_order(keys.deep_view(), sorted@),
            keys@.len() == files@.len(),
            out@.len() == i,
            forall|k: int| 0 <= k < i ==> (#[trigger] out@[k])@ == files@[sorted@[k] as int]@,
    {
        assert(sorted@[i as int] < keys.deep_view().len());
        let file = &files[sorted[i]];
        out.push(
            ChangedFile {
                path: file.path.clone(),
                status: file.status.clone(),
                additions: file.additions,
                deletions: file.deletions,
            },
        );
    }
    proof {
        order::lemma_sorted_items(keys.deep_view(), files.deep_view(), sorted@);
        assert(out.deep_view() =~= sorted@.map_values(|i: usize| files.deep_view()[i as int])) by {
            assert forall|k: int| 0 <= k < sorted@.len() implies #[trigger] out.deep_view()[k]
                == files.deep_view()[sorted@[k] as int] by {
                assert(out@[k]@ == files@[sorted@[k] as int]@);
                assert(sorted@[k] < keys.deep_view().len());
            }
        }
    }
    out
}

proof fn lemma_uncounted_grows(rows: Seq<RowView>, stats: Map<Seq<char>, (u32, u32)>, k: int)
    requires
        0 <= k <= rows.len(),
    ensures
        uncounted(rows.take(k), stats).len() <= uncounted(rows, stats).len(),
    decreases rows.len(),
{
    if k == rows.len() {
        assert(rows.take(k) =~= rows);
    } else {
        lemma_uncounted_grows(rows.drop_last(), stats, k);
        assert(rows.drop_last().take(k) =~= rows.take(k));
    }
}

} // verus!
