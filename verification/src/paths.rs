//! Paths as text: their pieces, parents, names and extensions, by the rules of
//! the platform. Empty pieces and `.` pieces behind the front of a path count
//! for nothing. On Windows a path may begin with a drive, a device, or the name
//! of a host and a share; and a path may be in the verbatim form, which begins
//! with `\\?\`. There only the backslash parts pieces, and `.` is a piece like
//! any other.

use crate::platform::Platform;
use crate::text;
use crate::text::{chars_of, text_of};
use vstd::prelude::*;
use vstd::slice::slice_subrange;

verus! {

/// The characters that part the pieces of a path.
#[derive(Debug, Clone, Copy, PartialEq, Eq)]
pub enum Seps {
    Slash,
    Backslash,
    Both,
}

/// A character that parts the pieces of a path.
pub open spec fn is_sep(c: char, seps: Seps) -> bool {
    match seps {
        Seps::Slash => c == '/',
        Seps::Backslash => c == '\\',
        Seps::Both => c == '/' || c == '\\',
    }
}

/// What parts the pieces of a path that is not in the verbatim form.
pub open spec fn plain_seps(platform: Platform) -> Seps {
    match platform {
        Platform::Windows => Seps::Both,
        _ => Seps::Slash,
    }
}

/// The character that is put between two paths.
pub open spec fn main_sep(platform: Platform) -> char {
    match platform {
        Platform::Windows => '\\',
        _ => '/',
    }
}

/// A letter that can name a drive.
pub open spec fn is_drive(c: char) -> bool {
    'a' <= c <= 'z' || 'A' <= c <= 'Z'
}

/// A path in the verbatim form. Only Windows has it.
pub open spec fn verbatim(p: Seq<char>, platform: Platform) -> bool {
    platform is Windows && p.len() >= 4 && p[0] == '\\' && p[1] == '\\' && p[2] == '?' && p[3]
        == '\\'
}

/// What parts the pieces of a path.
pub open spec fn seps_of(p: Seq<char>, platform: Platform) -> Seps {
    if verbatim(p, platform) {
        Seps::Backslash
    } else {
        plain_seps(platform)
    }
}

/// Where the piece that begins at `i` ends.
pub open spec fn piece_end(p: Seq<char>, i: int, seps: Seps) -> int
    decreases p.len() - i,
{
    if i >= p.len() || is_sep(p[i], seps) {
        i
    } else {
        piece_end(p, i + 1, seps)
    }
}

/// A drive and its colon stand at `i`.
pub open spec fn drive_at(p: Seq<char>, i: int) -> bool {
    i + 1 < p.len() && is_drive(p[i]) && p[i + 1] == ':'
}

/// How much of a path in the verbatim form is its prefix: the name of a host and
/// a share behind `UNC`, either of which may be empty; a drive that is a whole
/// piece; or else the first piece.
pub open spec fn verbatim_len(p: Seq<char>) -> int {
    if p.len() >= 8 && p[4] == 'U' && p[5] == 'N' && p[6] == 'C' && is_sep(p[7], Seps::Both) {
        let host = piece_end(p, 8, Seps::Backslash);
        let share = piece_end(p, host + 1, Seps::Backslash);
        if host + 1 < share {
            share
        } else {
            host
        }
    } else if drive_at(p, 4) && (p.len() == 6 || is_sep(p[6], Seps::Both)) {
        6
    } else {
        piece_end(p, 4, Seps::Backslash)
    }
}

/// How much of a path that begins with two separators is its prefix: the name of
/// a device behind a `.`, or the names of a host and a share, neither of which is
/// empty.
pub open spec fn network_len(p: Seq<char>) -> int {
    if p.len() >= 4 && p[2] == '.' && is_sep(p[3], Seps::Both) {
        piece_end(p, 4, Seps::Both)
    } else {
        let host = piece_end(p, 2, Seps::Both);
        let share = piece_end(p, host + 1, Seps::Both);
        if 2 < host < p.len() && host + 1 < share {
            share
        } else {
            0
        }
    }
}

/// How much of a path names a drive, a device, or a host and its share. Only
/// Windows has such names.
pub open spec fn prefix_len(p: Seq<char>, platform: Platform) -> int {
    if !(platform is Windows) || p.len() < 2 {
        0
    } else if verbatim(p, platform) {
        verbatim_len(p)
    } else if is_sep(p[0], Seps::Both) && is_sep(p[1], Seps::Both) {
        network_len(p)
    } else if drive_at(p, 0) {
        2
    } else {
        0
    }
}

/// A separator stands right behind the prefix of a path.
pub open spec fn slash_first(p: Seq<char>, platform: Platform) -> bool {
    prefix_len(p, platform) < p.len() && is_sep(p[prefix_len(p, platform)], plain_seps(platform))
}

/// A path that begins at a root. Every prefix but a drive is one.
pub open spec fn rooted(p: Seq<char>, platform: Platform) -> bool {
    slash_first(p, platform) || prefix_len(p, platform) > 2
}

/// A path that leads to the same place from everywhere.
pub open spec fn absolute(p: Seq<char>, platform: Platform) -> bool {
    rooted(p, platform) && (platform is Windows ==> prefix_len(p, platform) > 0)
}

/// Where the pieces of a path begin: behind its prefix and its root, or behind
/// a `.` that stands as its first piece.
pub open spec fn body_start(p: Seq<char>, platform: Platform) -> int {
    let front = prefix_len(p, platform);
    if slash_first(p, platform) {
        front + 1
    } else if !rooted(p, platform) && front < p.len() && p[front] == '.' && (front + 1 == p.len()
        || is_sep(p[front + 1], plain_seps(platform))) {
        front + 1
    } else {
        front
    }
}

/// The pieces of a path begin inside of it.
pub proof fn lemma_body_start(p: Seq<char>, platform: Platform)
    ensures
        0 <= prefix_len(p, platform) <= body_start(p, platform) <= p.len(),
        verbatim(p, platform) ==> prefix_len(p, platform) >= 4,
{
    if platform is Windows && p.len() >= 2 {
        if verbatim(p, platform) {
            lemma_piece_end(p, 4, Seps::Backslash);
            if p.len() >= 8 {
                lemma_two_pieces(p, 8, Seps::Backslash);
            }
        } else {
            lemma_two_pieces(p, 2, Seps::Both);
            if p.len() >= 4 {
                lemma_piece_end(p, 4, Seps::Both);
            }
        }
    }
}

/// A piece ends inside of the path.
pub proof fn lemma_piece_end(p: Seq<char>, i: int, seps: Seps)
    requires
        0 <= i <= p.len(),
    ensures
        i <= piece_end(p, i, seps) <= p.len(),
        forall|k: int| i <= k < piece_end(p, i, seps) ==> !is_sep(#[trigger] p[k], seps),
    decreases p.len() - i,
{
    if i < p.len() && !is_sep(p[i], seps) {
        lemma_piece_end(p, i + 1, seps);
    }
}

proof fn lemma_two_pieces(p: Seq<char>, i: int, seps: Seps)
    requires
        0 <= i <= p.len(),
    ensures
        ({
            let one = piece_end(p, i, seps);
            i <= one <= p.len() && (one < p.len() ==> one < piece_end(p, one + 1, seps) <= p.len())
                && (one == p.len() ==> piece_end(p, one + 1, seps) == one + 1)
        }),
{
    lemma_piece_end(p, i, seps);
    let one = piece_end(p, i, seps);
    if one < p.len() {
        lemma_piece_end(p, one + 1, seps);
    }
}

/// Where the last piece of `p` begins, if pieces begin at `start`.
pub open spec fn piece_start(p: Seq<char>, start: int, seps: Seps) -> int
    decreases p.len(),
{
    if p.len() == 0 || p.len() <= start {
        start
    } else if is_sep(p.last(), seps) {
        p.len() as int
    } else {
        piece_start(p.drop_last(), start, seps)
    }
}

/// The last piece of `p`.
pub open spec fn last_piece(p: Seq<char>, platform: Platform) -> Seq<char> {
    p.skip(piece_start(p, body_start(p, platform), seps_of(p, platform)))
}

/// `p` without its last piece and the separator before it.
pub open spec fn before_last_piece(p: Seq<char>, platform: Platform) -> Seq<char> {
    let start = body_start(p, platform);
    let at = piece_start(p, start, seps_of(p, platform));
    if at > start {
        p.take(at - 1)
    } else {
        p.take(start)
    }
}

/// The last piece of a path begins inside of it.
pub proof fn lemma_piece_start(p: Seq<char>, start: int, seps: Seps)
    requires
        0 <= start <= p.len(),
    ensures
        start <= piece_start(p, start, seps) <= p.len(),
    decreases p.len(),
{
    if p.len() > start && !is_sep(p.last(), seps) {
        lemma_piece_start(p.drop_last(), start, seps);
    }
}

/// A piece that counts for nothing at the end of a path.
pub open spec fn is_idle(piece: Seq<char>, p: Seq<char>, platform: Platform) -> bool {
    piece.len() == 0 || piece == seq!['.'] && !verbatim(p, platform)
}

/// `p` without the pieces at its end that count for nothing.
pub open spec fn tidy(p: Seq<char>, platform: Platform) -> Seq<char>
    decreases p.len(),
{
    if p.len() > body_start(p, platform) && is_idle(last_piece(p, platform), p, platform) {
        proof {
            lemma_body_start(p, platform);
            lemma_piece_start(p, body_start(p, platform), seps_of(p, platform));
        }
        tidy(before_last_piece(p, platform), platform)
    } else {
        p
    }
}

/// A piece that names no file: a `.` or a `..`.
pub open spec fn is_dots(piece: Seq<char>) -> bool {
    piece == seq!['.'] || piece == seq!['.', '.']
}

/// The name of the file that a path ends in.
pub open spec fn file_name(p: Seq<char>, platform: Platform) -> Option<Seq<char>> {
    let q = tidy(p, platform);
    if q.len() <= body_start(q, platform) || is_dots(last_piece(q, platform)) {
        None
    } else {
        Some(last_piece(q, platform))
    }
}

/// The path without its last piece. A path that is nothing but a prefix and a
/// root has none.
pub open spec fn parent(p: Seq<char>, platform: Platform) -> Option<Seq<char>> {
    let q = tidy(p, platform);
    if q.len() > body_start(q, platform) {
        Some(tidy(before_last_piece(q, platform), platform))
    } else if q.len() == 0 || rooted(q, platform) || prefix_len(q, platform) > 0 {
        None
    } else {
        Some(seq![])
    }
}

/// The pieces of `p` that are not empty, if pieces begin at `start`.
pub open spec fn pieces(p: Seq<char>, start: int, seps: Seps) -> Seq<Seq<char>>
    decreases p.len(),
{
    if start < 0 || p.len() <= start {
        seq![]
    } else {
        proof {
            lemma_piece_start(p, start, seps);
        }
        let at = piece_start(p, start, seps);
        let before = pieces(
            p.take(
                if at > start {
                    at - 1
                } else {
                    start
                },
            ),
            start,
            seps,
        );
        if at == p.len() {
            before
        } else {
            before.push(p.skip(at))
        }
    }
}

/// Pieces after one more step: a `.` stays, a `..` goes back over a name, and a
/// name goes on.
pub open spec fn stepped(way: Seq<Seq<char>>, step: Seq<char>) -> Seq<Seq<char>> {
    if step == seq!['.'] {
        way
    } else if step == seq!['.', '.'] {
        if way.len() > 0 && !is_dots(way.last()) {
            way.drop_last()
        } else {
            way
        }
    } else {
        way.push(step)
    }
}

/// Pieces after several steps.
pub open spec fn walked(way: Seq<Seq<char>>, steps: Seq<Seq<char>>) -> Seq<Seq<char>>
    decreases steps.len(),
{
    if steps.len() == 0 {
        way
    } else {
        stepped(walked(way, steps.drop_last()), steps.last())
    }
}

/// The path in the verbatim form that has a prefix, perhaps a root, and pieces.
pub open spec fn verbatim_text(prefix: Seq<char>, root: bool, way: Seq<Seq<char>>) -> Seq<char> {
    if way.len() > 0 {
        prefix.push('\\') + text::joined(way, seq!['\\'])
    } else if root {
        prefix.push('\\')
    } else {
        prefix
    }
}

/// `rest` seen from `base`, which is in the verbatim form: the pieces of `rest`
/// are followed from those of `base`, or from its root where `rest` begins at one.
pub open spec fn verbatim_join(base: Seq<char>, rest: Seq<char>, platform: Platform) -> Seq<char> {
    let way = if slash_first(rest, platform) {
        seq![]
    } else {
        pieces(base, body_start(base, platform), Seps::Backslash)
    };
    verbatim_text(
        base.take(prefix_len(base, platform)),
        slash_first(base, platform) || slash_first(rest, platform),
        walked(way, pieces(rest, body_start(rest, platform), Seps::Both)),
    )
}

/// `rest` seen from `base`. A path with a prefix, or on Unix one that begins at
/// the root, stands for itself; one that begins at the root keeps the prefix of
/// `base`. From a path in the verbatim form `.` and `..` in `rest` are followed.
pub open spec fn joined_path(base: Seq<char>, rest: Seq<char>, platform: Platform) -> Seq<char> {
    if absolute(rest, platform) || prefix_len(rest, platform) > 0 {
        rest
    } else if verbatim(base, platform) && rest.len() > 0 {
        verbatim_join(base, rest, platform)
    } else if rooted(rest, platform) {
        base.take(prefix_len(base, platform)) + rest
    } else if base.len() == 0 || is_sep(base.last(), plain_seps(platform)) || (base.len() == 2
        && prefix_len(base, platform) == 2) {
        base + rest
    } else {
        base.push(main_sep(platform)) + rest
    }
}

/// Where the text behind the last dot of `name` begins.
pub open spec fn dot_end(name: Seq<char>) -> int
    decreases name.len(),
{
    if name.len() == 0 {
        0
    } else if name.last() == '.' {
        name.len() as int
    } else {
        dot_end(name.drop_last())
    }
}

/// The text behind the last dot in the name of the file that a path ends in,
/// unless the name begins with that dot.
pub open spec fn extension(p: Seq<char>, platform: Platform) -> Option<Seq<char>> {
    match file_name(p, platform) {
        Some(name) if dot_end(name) > 1 => Some(name.skip(dot_end(name))),
        _ => None,
    }
}

fn parts_pieces(c: char, seps: Seps) -> (r: bool)
    ensures
        r == is_sep(c, seps),
{
    match seps {
        Seps::Slash => c == '/',
        Seps::Backslash => c == '\\',
        Seps::Both => c == '/' || c == '\\',
    }
}

fn find_plain_seps(platform: Platform) -> (r: Seps)
    ensures
        r == plain_seps(platform),
{
    match platform {
        Platform::Windows => Seps::Both,
        _ => Seps::Slash,
    }
}

fn is_verbatim(cs: &[char], platform: Platform) -> (r: bool)
    ensures
        r == verbatim(cs@, platform),
{
    match platform {
        Platform::Windows => cs.len() >= 4 && cs[0] == '\\' && cs[1] == '\\' && cs[2] == '?'
            && cs[3] == '\\',
        _ => false,
    }
}

fn find_seps(cs: &[char], platform: Platform) -> (r: Seps)
    ensures
        r == seps_of(cs@, platform),
{
    if is_verbatim(cs, platform) {
        Seps::Backslash
    } else {
        find_plain_seps(platform)
    }
}

fn find_piece_end(cs: &[char], from: usize, seps: Seps) -> (r: usize)
    requires
        from <= cs@.len(),
    ensures
        r == piece_end(cs@, from as int, seps),
        from <= r <= cs@.len(),
{
    let mut at: usize = from;
    while at < cs.len() && !parts_pieces(cs[at], seps)
        invariant
            from <= at <= cs@.len(),
            piece_end(cs@, from as int, seps) == piece_end(cs@, at as int, seps),
        decreases cs@.len() - at,
    {
        at = at + 1;
    }
    at
}

fn is_drive_at(cs: &[char], i: usize) -> (r: bool)
    requires
        i <= 4,
    ensures
        r == drive_at(cs@, i as int),
{
    if i + 1 >= cs.len() {
        return false;
    }
    let c = cs[i];
    (('a' <= c && c <= 'z') || ('A' <= c && c <= 'Z')) && cs[i + 1] == ':'
}

fn find_verbatim_len(cs: &[char]) -> (r: usize)
    requires
        cs@.len() >= 4,
    ensures
        r == verbatim_len(cs@),
        r <= cs@.len(),
{
    let n: usize = cs.len();
    if n >= 8 && cs[4] == 'U' && cs[5] == 'N' && cs[6] == 'C' && parts_pieces(cs[7], Seps::Both) {
        let host: usize = find_piece_end(cs, 8, Seps::Backslash);
        if host == n {
            return host;
        }
        let share: usize = find_piece_end(cs, host + 1, Seps::Backslash);
        return if host + 1 < share {
            share
        } else {
            host
        };
    }
    if is_drive_at(cs, 4) && (n == 6 || parts_pieces(cs[6], Seps::Both)) {
        return 6;
    }
    find_piece_end(cs, 4, Seps::Backslash)
}

fn find_network_len(cs: &[char]) -> (r: usize)
    requires
        cs@.len() >= 2,
    ensures
        r == network_len(cs@),
        r <= cs@.len(),
{
    let n: usize = cs.len();
    if n >= 4 && cs[2] == '.' && parts_pieces(cs[3], Seps::Both) {
        return find_piece_end(cs, 4, Seps::Both);
    }
    let host: usize = find_piece_end(cs, 2, Seps::Both);
    if host == 2 || host == n {
        return 0;
    }
    let share: usize = find_piece_end(cs, host + 1, Seps::Both);
    if host + 1 < share {
        share
    } else {
        0
    }
}

fn find_prefix(cs: &[char], platform: Platform) -> (r: usize)
    ensures
        r == prefix_len(cs@, platform),
        r <= cs@.len(),
{
    match platform {
        Platform::Windows => {},
        _ => {
            return 0;
        },
    }
    if cs.len() < 2 {
        0
    } else if is_verbatim(cs, platform) {
        find_verbatim_len(cs)
    } else if parts_pieces(cs[0], Seps::Both) && parts_pieces(cs[1], Seps::Both) {
        find_network_len(cs)
    } else if is_drive_at(cs, 0) {
        2
    } else {
        0
    }
}

/// How much of a path is its prefix, whether a separator stands behind that, and
/// where the pieces begin.
fn find_front(cs: &[char], platform: Platform) -> (r: (usize, bool, usize))
    ensures
        r.0 == prefix_len(cs@, platform),
        r.1 == slash_first(cs@, platform),
        r.2 == body_start(cs@, platform),
        r.0 <= r.2 <= cs@.len(),
{
    let n: usize = cs.len();
    let seps = find_plain_seps(platform);
    let front: usize = find_prefix(cs, platform);
    if front < n && parts_pieces(cs[front], seps) {
        return (front, true, front + 1);
    }
    if front <= 2 && front < n && cs[front] == '.' && (front + 1 == n || parts_pieces(
        cs[front + 1],
        seps,
    )) {
        return (front, false, front + 1);
    }
    (front, false, front)
}

/// Says whether a path leads to the same place from everywhere.
pub fn is_absolute(p: &str, platform: Platform) -> (r: bool)
    ensures
        r == absolute(p@, platform),
{
    let cs = chars_of(p);
    let (front, slash, _) = find_front(cs.as_slice(), platform);
    let windows = match platform {
        Platform::Windows => true,
        _ => false,
    };
    (slash || front > 2) && (!windows || front > 0)
}

fn find_body(cs: &[char], platform: Platform) -> (r: usize)
    ensures
        r == body_start(cs@, platform),
        r <= cs@.len(),
{
    let (_, _, start) = find_front(cs, platform);
    start
}

fn find_piece(cs: &[char], start: usize, seps: Seps) -> (r: usize)
    requires
        start <= cs@.len(),
    ensures
        r == piece_start(cs@, start as int, seps),
        start <= r <= cs@.len(),
{
    let mut at: usize = cs.len();
    assert(cs@.take(at as int) =~= cs@);
    while at > start && !parts_pieces(cs[at - 1], seps)
        invariant
            start <= at <= cs@.len(),
            piece_start(cs@, start as int, seps) == piece_start(
                cs@.take(at as int),
                start as int,
                seps,
            ),
        decreases at,
    {
        assert(cs@.take(at as int).drop_last() =~= cs@.take(at - 1));
        at = at - 1;
    }
    at
}

/// How much of a path is left without its last piece.
fn find_before(cs: &[char], platform: Platform) -> (r: usize)
    ensures
        r <= cs@.len(),
        before_last_piece(cs@, platform) == cs@.take(r as int),
        cs@.len() > body_start(cs@, platform) && last_piece(cs@, platform).len() <= 1 ==> r
            < cs@.len(),
{
    let start: usize = find_body(cs, platform);
    let at: usize = find_piece(cs, start, find_seps(cs, platform));
    if at > start {
        at - 1
    } else {
        start
    }
}

/// How much of a path is left without the pieces that count for nothing.
fn find_tidy(cs: &[char], platform: Platform) -> (r: usize)
    ensures
        r <= cs@.len(),
        tidy(cs@, platform) == cs@.take(r as int),
{
    let mut len: usize = cs.len();
    assert(cs@.take(len as int) =~= cs@);
    loop
        invariant
            len <= cs@.len(),
            tidy(cs@, platform) == tidy(cs@.take(len as int), platform),
        decreases len,
    {
        let now = slice_subrange(cs, 0, len);
        assert(now@ =~= cs@.take(len as int));
        let start: usize = find_body(now, platform);
        if len <= start {
            return len;
        }
        let at: usize = find_piece(now, start, find_seps(now, platform));
        assert(last_piece(now@, platform).len() == len - at);
        let idle = at == len || (at + 1 == len && now[at] == '.' && !is_verbatim(now, platform));
        assert(idle == is_idle(last_piece(now@, platform), now@, platform)) by {
            if at + 1 == len && now@[at as int] == '.' {
                assert(last_piece(now@, platform) =~= seq!['.']);
            }
            if last_piece(now@, platform) == seq!['.'] {
                assert(last_piece(now@, platform)[0] == now@[at as int]);
            }
        }
        if !idle {
            return len;
        }
        let next: usize = find_before(now, platform);
        assert(now@.take(next as int) =~= cs@.take(next as int));
        len = next;
    }
}

fn are_dots(piece: &[char]) -> (r: bool)
    ensures
        r == is_dots(piece@),
{
    if piece.len() == 1 && piece[0] == '.' {
        assert(piece@ =~= seq!['.']);
        return true;
    }
    if piece.len() == 2 && piece[0] == '.' && piece[1] == '.' {
        assert(piece@ =~= seq!['.', '.']);
        return true;
    }
    false
}

/// The name of the file that a path ends in.
pub fn path_file_name(p: &str, platform: Platform) -> (r: Option<String>)
    ensures
        r.deep_view() == file_name(p@, platform),
{
    let cs = chars_of(p);
    let len: usize = find_tidy(cs.as_slice(), platform);
    let q = slice_subrange(cs.as_slice(), 0, len);
    assert(q@ =~= tidy(p@, platform));
    let start: usize = find_body(q, platform);
    if len <= start {
        return None;
    }
    let at: usize = find_piece(q, start, find_seps(q, platform));
    let piece = slice_subrange(q, at, len);
    assert(piece@ =~= last_piece(q@, platform));
    if are_dots(piece) {
        return None;
    }
    Some(text_of(piece))
}

/// The path without its last piece.
pub fn path_parent(p: &str, platform: Platform) -> (r: Option<String>)
    ensures
        r.deep_view() == parent(p@, platform),
{
    let cs = chars_of(p);
    let len: usize = find_tidy(cs.as_slice(), platform);
    let q = slice_subrange(cs.as_slice(), 0, len);
    assert(q@ =~= tidy(p@, platform));
    let (front, slash, start) = find_front(q, platform);
    if len > start {
        let cut: usize = find_before(q, platform);
        let up = slice_subrange(q, 0, cut);
        assert(up@ =~= before_last_piece(q@, platform));
        let end: usize = find_tidy(up, platform);
        let up = slice_subrange(up, 0, end);
        assert(up@ =~= tidy(before_last_piece(q@, platform), platform));
        Some(text_of(up))
    } else if len == 0 || slash || front > 0 {
        None
    } else {
        let none = String::new();
        Some(none)
    }
}

/// The pieces of a path that are not empty, if pieces begin at `start`.
fn find_pieces(cs: &[char], start: usize, seps: Seps) -> (r: Vec<String>)
    requires
        start <= cs@.len(),
    ensures
        r.deep_view() == pieces(cs@, start as int, seps),
{
    let n: usize = cs.len();
    let mut out: Vec<String> = Vec::new();
    let mut at: usize = start;
    assert(cs@.take(n as int) =~= cs@);
    assert(out.deep_view() =~= pieces(cs@.take(start as int), start as int, seps));
    for i in start..n
        invariant
            n == cs@.len(),
            start <= at <= i,
            at == piece_start(cs@.take(i as int), start as int, seps),
            out.deep_view() == pieces(
                cs@.take(
                    if at > start {
                        at - 1
                    } else {
                        start as int
                    },
                ),
                start as int,
                seps,
            ),
    {
        let ghost now = cs@.take(i as int);
        let ghost next = cs@.take(i + 1);
        let ghost cut = if at > start {
            at - 1
        } else {
            start as int
        };
        assert(next.drop_last() =~= now);
        assert(next.last() == cs@[i as int]);
        assert(now.take(cut) =~= cs@.take(cut));
        if parts_pieces(cs[i], seps) {
            if at < i {
                let ghost before = out.deep_view();
                let piece = text_of(slice_subrange(cs, at, i));
                assert(piece@ =~= now.skip(at as int));
                out.push(piece);
                assert(out.deep_view() =~= before.push(piece@));
            }
            assert(out.deep_view() == pieces(now, start as int, seps));
            at = i + 1;
        }
    }
    let ghost cut = if at > start {
        at - 1
    } else {
        start as int
    };
    assert(cs@.take(cut).take(cut) =~= cs@.take(cut));
    if at < n {
        let ghost before = out.deep_view();
        let piece = text_of(slice_subrange(cs, at, n));
        assert(piece@ =~= cs@.skip(at as int));
        out.push(piece);
        assert(out.deep_view() =~= before.push(piece@));
    }
    out
}

/// Follows the pieces of a path from others.
fn walk(way: Vec<String>, steps: &Vec<String>) -> (r: Vec<String>)
    ensures
        r.deep_view() == walked(way.deep_view(), steps.deep_view()),
{
    let ghost start = way.deep_view();
    let ghost all = steps.deep_view();
    let mut way = way;
    for i in 0..steps.len()
        invariant
            all == steps.deep_view(),
            way.deep_view() == walked(start, all.take(i as int)),
    {
        assert(all.take(i + 1).drop_last() =~= all.take(i as int));
        assert(all.take(i + 1).last() == steps@[i as int]@);
        let ghost before = way.deep_view();
        let step = chars_of(steps[i].as_str());
        if are_dots(step.as_slice()) {
            let named = way.len() > 0 && !are_dots(
                chars_of(way[way.len() - 1].as_str()).as_slice(),
            );
            if step.len() == 2 && named {
                let _ = way.pop();
                assert(way.deep_view() =~= before.drop_last());
            }
        } else {
            way.push(steps[i].clone());
            assert(way.deep_view() =~= before.push(steps@[i as int]@));
        }
    }
    assert(all.take(all.len() as int) =~= all);
    way
}

/// `rest` seen from `base`, which is in the verbatim form.
fn join_verbatim(base: &[char], rest: &[char], platform: Platform) -> (r: String)
    requires
        verbatim(base@, platform),
    ensures
        r@ == verbatim_join(base@, rest@, platform),
{
    let (front, slash, start) = find_front(base, platform);
    let (_, rest_slash, rest_start) = find_front(rest, platform);
    let way: Vec<String> = if rest_slash {
        let none: Vec<String> = Vec::new();
        assert(none.deep_view() =~= seq![]);
        none
    } else {
        find_pieces(base, start, Seps::Backslash)
    };
    let way = walk(way, &find_pieces(rest, rest_start, Seps::Both));
    let mut out = text_of(slice_subrange(base, 0, front));
    assert(out@ =~= base@.take(front as int));
    assert(way@.len() == way.deep_view().len());
    if way.len() > 0 || slash || rest_slash {
        out.push('\\');
    }
    if way.len() > 0 {
        proof {
            reveal_strlit("\\");
            assert("\\"@ =~= seq!['\\']);
        }
        out.append(text::join(&way, "\\").as_str());
    }
    out
}

/// `rest` seen from `base`.
pub fn path_join(base: &str, rest: &str, platform: Platform) -> (r: String)
    ensures
        r@ == joined_path(base@, rest@, platform),
{
    let windows = match platform {
        Platform::Windows => true,
        _ => false,
    };
    let rs = chars_of(rest);
    let (rest_front, rest_slash, _) = find_front(rs.as_slice(), platform);
    if rest_front > 0 || (rest_slash && !windows) {
        return rest.to_string();
    }
    let cs = chars_of(base);
    let n: usize = cs.len();
    if rs.len() > 0 && is_verbatim(cs.as_slice(), platform) {
        return join_verbatim(cs.as_slice(), rs.as_slice(), platform);
    }
    let front: usize = find_prefix(cs.as_slice(), platform);
    if rest_slash {
        let mut out = text_of(slice_subrange(cs.as_slice(), 0, front));
        assert(out@ =~= base@.take(front as int));
        out.append(rest);
        return out;
    }
    let mut out = base.to_string();
    if n > 0 && !parts_pieces(cs[n - 1], find_plain_seps(platform)) && !(n == 2 && front == 2) {
        out.push(if windows {
            '\\'
        } else {
            '/'
        });
    }
    out.append(rest);
    out
}

/// The extension of the file that a path ends in.
pub fn path_extension(p: &str, platform: Platform) -> (r: Option<String>)
    ensures
        r.deep_view() == extension(p@, platform),
{
    let name = match path_file_name(p, platform) {
        Some(name) => name,
        None => {
            return None;
        },
    };
    let cs = chars_of(name.as_str());
    let mut at: usize = cs.len();
    assert(cs@.take(at as int) =~= cs@);
    while at > 0 && cs[at - 1] != '.'
        invariant
            at <= cs@.len(),
            dot_end(cs@) == dot_end(cs@.take(at as int)),
        decreases at,
    {
        assert(cs@.take(at as int).drop_last() =~= cs@.take(at - 1));
        at = at - 1;
    }
    if at > 1 {
        let ext = text_of(slice_subrange(cs.as_slice(), at, cs.len()));
        assert(ext@ =~= name@.skip(dot_end(name@)));
        Some(ext)
    } else {
        None
    }
}

} // verus!
