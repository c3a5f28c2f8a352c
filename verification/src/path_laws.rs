//! What holds of paths, in terms of their characters alone.

use crate::git::laws;
use crate::paths;
use crate::paths::Seps;
use crate::platform::Platform;
use crate::text;
use vstd::prelude::*;

verus! {

/// A character that parts the pieces of paths on a platform.
pub open spec fn parts(c: char, platform: Platform) -> bool {
    c == '/' || c == '\\' && platform is Windows
}

/// A drive of Windows stands at the beginning of a path.
pub open spec fn has_drive(p: Seq<char>) -> bool {
    p.len() > 1 && ('a' <= p[0] <= 'z' || 'A' <= p[0] <= 'Z') && p[1] == ':'
}

/// A name of a host or a share on Windows.
pub open spec fn is_host(name: Seq<char>) -> bool {
    &&& name.len() > 0
    &&& !name.contains('/') && !name.contains('\\')
    &&& name != seq!['.'] && name != seq!['?']
}

proof fn lemma_one_piece(p: Seq<char>, i: int, name: Seq<char>, seps: Seps)
    requires
        0 <= i,
        i + name.len() <= p.len(),
        !name.contains('/') && !name.contains('\\'),
        p.subrange(i, i + name.len()) == name,
        i + name.len() < p.len() ==> paths::is_sep(p[i + name.len()], seps),
    ensures
        paths::piece_end(p, i, seps) == i + name.len(),
    decreases name.len(),
{
    if name.len() > 0 {
        let rest = name.drop_first();
        assert(p[i] == p.subrange(i, i + name.len())[0]);
        assert(name.contains(name[0]));
        assert(p.subrange(i + 1, i + 1 + rest.len()) =~= rest) by {
            assert forall|k: int| 0 <= k < rest.len() implies p[i + 1 + k] == rest[k] by {
                assert(p.subrange(i, i + name.len())[k + 1] == name[k + 1]);
            }
        }
        assert forall|k: int| 0 <= k < rest.len() implies rest[k] != '/' && rest[k] != '\\' by {
            assert(name.contains(name[k + 1]));
        }
        lemma_one_piece(p, i + 1, rest, seps);
    }
}

/// On Unix a path is absolute exactly where it begins with a slash. On Windows a path
/// with a drive is exactly where a separator follows the drive; one that begins with
/// two separators, a host, a separator and a share is; one that begins with a single
/// separator or with none and no drive is not, nor is one with a host alone.
pub proof fn absolute_paths_are_known_by_their_fronts(
    p: Seq<char>,
    platform: Platform,
    host: Seq<char>,
    share: Seq<char>,
    rest: Seq<char>,
)
    requires
        is_host(host),
        is_host(share),
        rest.len() == 0 || parts(rest[0], Platform::Windows),
    ensures
        !(platform is Windows) ==> (paths::absolute(p, platform) <==> p.len() > 0 && p[0] == '/'),
        platform is Windows && has_drive(p) ==> (paths::absolute(p, platform) <==> p.len() > 2
            && parts(p[2], platform)),
        platform is Windows && !has_drive(p) && !(p.len() > 1 && parts(p[0], platform) && parts(
            p[1],
            platform,
        )) ==> !paths::absolute(p, platform),
        paths::absolute(
            seq!['\\', '\\'] + host + seq!['\\'] + share + rest,
            Platform::Windows,
        ),
        !paths::absolute(seq!['\\', '\\'] + host, Platform::Windows),
{
    let windows = Platform::Windows;
    let whole = seq!['\\', '\\'] + host + seq!['\\'] + share + rest;
    let h = host.len() as int;
    let s = share.len() as int;
    assert(whole.subrange(2, 2 + h) =~= host);
    assert(whole[2 + h] == '\\');
    assert(whole.subrange(3 + h, 3 + h + s) =~= share);
    assert(rest.len() > 0 ==> whole[3 + h + s] == rest[0]);
    lemma_one_piece(whole, 2, host, Seps::Both);
    lemma_one_piece(whole, 3 + h, share, Seps::Both);
    assert(whole[2] == host[0]);
    assert(host.contains(host[0]));
    if h == 1 {
        assert(whole[3] == '\\');
        if host[0] == '.' {
            assert(host =~= seq!['.']);
        }
        if host[0] == '?' {
            assert(host =~= seq!['?']);
        }
    } else {
        assert(whole[3] == host[1]);
        assert(host.contains(host[1]));
    }
    assert(paths::prefix_len(whole, windows) == 3 + h + s);
    let alone = seq!['\\', '\\'] + host;
    assert(alone.subrange(2, 2 + h) =~= host);
    lemma_one_piece(alone, 2, host, Seps::Both);
    assert(alone[2] == host[0]);
    if h > 1 {
        assert(alone[3] == host[1]);
    }
    assert(paths::prefix_len(alone, windows) == 0);
}

/// A path seen from another one stands for itself where it is absolute or has a
/// drive. Else it stands behind the other one, with a separator between where the
/// other one is not empty, does not end in one and is no drive alone. On Windows a
/// path that begins with one separator keeps the drive of the other one.
pub proof fn paths_are_seen_from_others(base: Seq<char>, rest: Seq<char>, platform: Platform)
    ensures
        !(platform is Windows) ==> paths::joined_path(base, rest, platform) == if rest.len() > 0
            && rest[0] == '/' {
            rest
        } else if base.len() == 0 || base.last() == '/' {
            base + rest
        } else {
            base + seq!['/'] + rest
        },
        platform is Windows && has_drive(rest) ==> paths::joined_path(base, rest, platform) == rest,
        platform is Windows && !has_drive(rest) && has_drive(base) ==> {
            &&& rest.len() > 0 && parts(rest[0], platform) && !(rest.len() > 1 && parts(
                rest[1],
                platform,
            )) ==> paths::joined_path(base, rest, platform) == base.take(2) + rest
            &&& rest.len() == 0 || !parts(rest[0], platform) ==> paths::joined_path(
                base,
                rest,
                platform,
            ) == if base.len() == 2 || parts(base.last(), platform) {
                base + rest
            } else {
                base + seq!['\\'] + rest
            }
        },
{
    assert(base.push('/') + rest =~= base + seq!['/'] + rest);
    assert(base.push('\\') + rest =~= base + seq!['\\'] + rest);
}

/// A path on Windows with a drive, a separator and more, that does not end in a
/// separator or in a piece that counts for nothing.
pub open spec fn is_clean(dir: Seq<char>) -> bool {
    &&& has_drive(dir)
    &&& dir.len() >= 4
    &&& parts(dir[2], Platform::Windows)
    &&& !parts(dir.last(), Platform::Windows)
    &&& dir.last() != '.' || !parts(dir[dir.len() - 2], Platform::Windows)
}

/// The name of one folder or file on Windows.
pub open spec fn is_name(name: Seq<char>) -> bool {
    &&& name.len() > 0
    &&& name != seq!['.'] && name != seq!['.', '.']
    &&& !name.contains('/') && !name.contains('\\')
}

proof fn lemma_clean_stays(dir: Seq<char>)
    requires
        is_clean(dir),
    ensures
        paths::tidy(dir, Platform::Windows) == dir,
{
    let front = dir.drop_last();
    paths::lemma_piece_start(front, 3, Seps::Both);
    let at = paths::piece_start(dir, 3, Seps::Both);
    assert(at == paths::piece_start(front, 3, Seps::Both));
    let last = dir.skip(at);
    assert(last.len() > 0);
    if last == seq!['.'] {
        assert(last.len() == 1);
        assert(last[0] == dir.last());
        assert(at == front.len());
        if front.len() > 3 {
            paths::lemma_piece_start(front.drop_last(), 3, Seps::Both);
            assert(front.last() == dir[dir.len() - 2]);
        }
    }
}

/// On Windows the last name of a path with a drive is what stands behind its last
/// separator, slash or backslash, and its parent is what stands before: the drive with
/// its separator where nothing else does.
pub proof fn windows_names_stand_behind_the_last_separator(
    dir: Seq<char>,
    drive: char,
    sep: char,
    name: Seq<char>,
)
    requires
        is_clean(dir),
        'a' <= drive <= 'z' || 'A' <= drive <= 'Z',
        parts(sep, Platform::Windows),
        is_name(name),
    ensures
        paths::file_name(dir.push(sep) + name, Platform::Windows) == Some(name),
        paths::parent(dir.push(sep) + name, Platform::Windows) == Some(dir),
        paths::file_name(seq![drive, ':', sep] + name, Platform::Windows) == Some(name),
        paths::parent(seq![drive, ':', sep] + name, Platform::Windows) == Some(
            seq![drive, ':', sep],
        ),
        paths::file_name(seq![drive, ':', sep], Platform::Windows) is None,
        paths::parent(seq![drive, ':', sep], Platform::Windows) is None,
{
    let windows = Platform::Windows;
    assert forall|i: int| 0 <= i < name.len() implies !paths::is_sep(
        #[trigger] name[i],
        Seps::Both,
    ) by {
        assert(name.contains(name[i]));
    }
    let p = dir.push(sep) + name;
    let n = dir.len() as int;
    assert(p[0] == dir[0] && p[1] == dir[1] && p[2] == dir[2]);
    laws::lemma_last_piece(dir, sep, name, 3, Seps::Both);
    assert(paths::piece_start(p, 3, Seps::Both) == n + 1);
    assert(paths::last_piece(p, windows) =~= name);
    assert(paths::tidy(p, windows) == p);
    assert(p.take(n) =~= dir);
    lemma_clean_stays(dir);
    let root = seq![drive, ':', sep];
    let base = seq![drive, ':'];
    let q = root + name;
    assert(base.push(sep) =~= root);
    assert(q[0] == drive && q[1] == ':' && q[2] == sep);
    laws::lemma_last_piece(base, sep, name, 3, Seps::Both);
    assert(paths::piece_start(q, 3, Seps::Both) == 3);
    assert(paths::last_piece(q, windows) =~= name);
    assert(paths::tidy(q, windows) == q);
    assert(q.take(3) =~= root);
    assert(paths::tidy(root, windows) == root);
}

/// The front of a path in the verbatim form: one with a drive, or with a host and a share
/// behind `UNC`.
pub open spec fn is_verbatim_front(
    front: Seq<char>,
    drive: char,
    host: Seq<char>,
    share: Seq<char>,
) -> bool {
    ||| ('a' <= drive <= 'z' || 'A' <= drive <= 'Z') && front == seq![
        '\\',
        '\\',
        '?',
        '\\',
        drive,
        ':',
    ]
    ||| is_host(host) && is_host(share) && front == seq!['\\', '\\', '?', '\\', 'U', 'N', 'C', '\\']
        + host + seq!['\\'] + share
}

proof fn lemma_verbatim_front(
    front: Seq<char>,
    drive: char,
    host: Seq<char>,
    share: Seq<char>,
    tail: Seq<char>,
)
    requires
        is_verbatim_front(front, drive, host, share),
    ensures
        ({
            let p = front.push('\\') + tail;
            &&& paths::verbatim(p, Platform::Windows)
            &&& paths::prefix_len(p, Platform::Windows) == front.len()
            &&& paths::slash_first(p, Platform::Windows)
            &&& paths::body_start(p, Platform::Windows) == front.len() + 1
            &&& p.take(front.len() as int) == front
        }),
{
    let p = front.push('\\') + tail;
    let n = front.len() as int;
    assert forall|i: int| 0 <= i < n implies p[i] == front[i] by {}
    assert(p[n] == '\\');
    assert(p.take(n) =~= front);
    assert(front[0] == '\\' && front[1] == '\\' && front[2] == '?' && front[3] == '\\');
    if n == 6 && front[5] == ':' {
        assert(p[4] == front[4] && p[5] == front[5]);
        assert(p[6] == '\\');
        assert(paths::prefix_len(p, Platform::Windows) == 6);
    } else {
        let h = host.len() as int;
        let s = share.len() as int;
        assert(n == 9 + h + s);
        assert(front[4] == 'U' && front[5] == 'N' && front[6] == 'C' && front[7] == '\\');
        assert(p[4] == 'U' && p[5] == 'N' && p[6] == 'C' && p[7] == '\\');
        assert(p.subrange(8, 8 + h) =~= host);
        assert(p[8 + h] == front[8 + h]);
        assert(p[8 + h] == '\\');
        assert(p.subrange(9 + h, 9 + h + s) =~= share);
        lemma_one_piece(p, 8, host, Seps::Backslash);
        lemma_one_piece(p, 9 + h, share, Seps::Backslash);
    }
}

/// The path in the verbatim form with a front and some pieces behind it.
pub open spec fn verbatim_path(front: Seq<char>, way: Seq<Seq<char>>) -> Seq<char> {
    front.push('\\') + text::joined(way, seq!['\\'])
}

/// From a path in the verbatim form with a drive or a share, a name leads on, a `..` leads
/// back over the last piece, a `.` leads nowhere, and a name behind a separator leads on
/// from the drive or the share itself.
pub proof fn verbatim_paths_are_followed(
    front: Seq<char>,
    drive: char,
    host: Seq<char>,
    share: Seq<char>,
    way: Seq<Seq<char>>,
    name: Seq<char>,
)
    requires
        is_verbatim_front(front, drive, host, share),
        way.len() > 0,
        forall|k: int| 0 <= k < way.len() ==> is_name(#[trigger] way[k]),
        is_name(name),
        !has_drive(name),
    ensures
        ({
            let base = verbatim_path(front, way);
            let windows = Platform::Windows;
            &&& paths::joined_path(base, name, windows) == verbatim_path(front, way.push(name))
            &&& paths::joined_path(base, seq!['.', '.'], windows) == verbatim_path(
                front,
                way.drop_last(),
            )
            &&& paths::joined_path(base, seq!['.'], windows) == base
            &&& paths::joined_path(base, seq!['\\'] + name, windows) == verbatim_path(
                front,
                seq![name],
            )
        }),
{
    let windows = Platform::Windows;
    let base = verbatim_path(front, way);
    let none = Seq::<char>::empty();
    let start = Seq::<Seq<char>>::empty();
    lemma_verbatim_front(front, drive, host, share, text::joined(way, seq!['\\']));
    assert forall|k: int| 0 <= k < way.len() implies laws::is_named(
        #[trigger] way[k],
        Seps::Backslash,
    ) by {
        assert(is_name(way[k]));
        assert forall|i: int| 0 <= i < way[k].len() implies !paths::is_sep(
            #[trigger] way[k][i],
            Seps::Backslash,
        ) by {
            assert(way[k].contains(way[k][i]));
        }
    }
    laws::lemma_pieces_come_back(front.push('\\'), way);
    assert(paths::pieces(base, paths::body_start(base, windows), Seps::Backslash) == way);
    assert(paths::pieces(none, 0, Seps::Both) =~= start);
    assert forall|i: int| 0 <= i < name.len() implies !paths::is_sep(
        #[trigger] name[i],
        Seps::Both,
    ) by {
        assert(name.contains(name[i]));
    }
    // A name.
    assert(!paths::is_sep(name[0], Seps::Both));
    if name.len() > 1 {
        assert(!paths::is_sep(name[1], Seps::Both));
    }
    if name.len() == 1 && name[0] == '.' {
        assert(name =~= seq!['.']);
    }
    assert(paths::prefix_len(name, windows) == 0);
    laws::lemma_verbatim_name(base, name, windows);
    // Two dots.
    let back = seq!['.', '.'];
    laws::lemma_only_piece(none, back, Seps::Both);
    assert(none + back =~= back);
    assert(back.take(0) =~= none);
    assert(back.skip(0) =~= back);
    assert(paths::pieces(back, 0, Seps::Both) =~= seq![back]);
    assert(seq![back].drop_last() =~= start);
    assert(paths::walked(way, start) == way);
    assert(is_name(way[way.len() - 1]));
    assert(back != seq!['.']) by {
        assert(back.len() == 2);
    }
    assert(paths::walked(way, seq![back]) == way.drop_last());
    assert(paths::body_start(back, windows) == 0);
    if way.len() == 1 {
        assert(way.drop_last() =~= start);
        assert(front.push('\\') + text::joined(start, seq!['\\']) =~= front.push('\\'));
    }
    // One dot.
    let here = seq!['.'];
    assert(paths::body_start(here, windows) == 1);
    assert(paths::pieces(here, 1, Seps::Both) =~= start);
    // A name behind a separator.
    let rooted = seq!['\\'] + name;
    assert(rooted[1] == name[0]);
    assert(paths::prefix_len(rooted, windows) == 0);
    assert(paths::body_start(rooted, windows) == 1);
    laws::lemma_only_piece(seq!['\\'], name, Seps::Both);
    assert(rooted.take(1) =~= seq!['\\']);
    assert(rooted.skip(1) =~= name);
    assert(paths::pieces(seq!['\\'], 1, Seps::Both) =~= start);
    assert(paths::pieces(rooted, 1, Seps::Both) =~= seq![name]);
    assert(seq![name].drop_last() =~= start);
    assert(paths::walked(start, start) == start);
    assert(paths::walked(start, seq![name]) =~= seq![name]);
}

} // verus!
