//! Text as sequences of characters: trimming, searching, splitting and joining,
//! each stated over `Seq<char>` and proved of the code.

use vstd::prelude::*;
use vstd::slice::slice_subrange;

verus! {

/// `String::push` puts one character behind the text that is there.
pub assume_specification[ String::push ](s: &mut String, ch: char)
    ensures
        final(s)@ == old(s)@.push(ch),
;

/// The characters of `s`, in order.
pub fn chars_of(s: &str) -> (r: Vec<char>)
    ensures
        r@ == s@,
{
    let mut out: Vec<char> = Vec::new();
    for c in it: s.chars()
        invariant
            it.seq() == s@,
            out@ == s@.take(it.index() as int),
    {
        out.push(c);
        assert(s@.take(it.index() + 1) =~= s@.take(it.index() as int).push(c));
    }
    assert(s@.take(s@.len() as int) =~= s@);
    out
}

/// The text that the characters of `cs` make.
pub fn text_of(cs: &[char]) -> (r: String)
    ensures
        r@ == cs@,
{
    let mut out = String::new();
    for i in 0..cs.len()
        invariant
            out@ == cs@.take(i as int),
    {
        out.push(cs[i]);
        assert(cs@.take(i + 1) =~= cs@.take(i as int).push(cs@[i as int]));
    }
    assert(cs@.take(cs@.len() as int) =~= cs@);
    out
}

/// The white space characters of Unicode.
pub open spec fn is_space(c: char) -> bool {
    let n = c as u32;
    ||| 0x9 <= n <= 0xd
    ||| n == 0x20
    ||| n == 0x85
    ||| n == 0xa0
    ||| n == 0x1680
    ||| 0x2000 <= n <= 0x200a
    ||| n == 0x2028
    ||| n == 0x2029
    ||| n == 0x202f
    ||| n == 0x205f
    ||| n == 0x3000
}

/// Says whether `c` is white space.
pub fn is_whitespace(c: char) -> (r: bool)
    ensures
        r == is_space(c),
{
    let n: u32 = c as u32;
    (0x9 <= n && n <= 0xd) || n == 0x20 || n == 0x85 || n == 0xa0 || n == 0x1680 || (0x2000 <= n
        && n <= 0x200a) || n == 0x2028 || n == 0x2029 || n == 0x202f || n == 0x205f || n == 0x3000
}

/// `s` without the white space at its front.
pub open spec fn trim_start(s: Seq<char>) -> Seq<char>
    decreases s.len(),
{
    if s.len() > 0 && is_space(s[0]) {
        trim_start(s.drop_first())
    } else {
        s
    }
}

/// `s` without the white space at its end.
pub open spec fn trim_end(s: Seq<char>) -> Seq<char>
    decreases s.len(),
{
    if s.len() > 0 && is_space(s.last()) {
        trim_end(s.drop_last())
    } else {
        s
    }
}

/// `s` without the white space at both ends.
pub open spec fn trimmed(s: Seq<char>) -> Seq<char> {
    trim_end(trim_start(s))
}

/// `s` without the white space at both ends.
pub fn trim(s: &str) -> (r: String)
    ensures
        r@ == trimmed(s@),
{
    let cs = chars_of(s);
    let n: usize = cs.len();
    let mut i: usize = 0;
    assert(cs@.subrange(0, n as int) =~= cs@);
    while i < n && is_whitespace(cs[i])
        invariant
            n == cs@.len(),
            i <= n,
            trim_start(cs@) == trim_start(cs@.subrange(i as int, n as int)),
        decreases n - i,
    {
        assert(cs@.subrange(i as int, n as int).drop_first() =~= cs@.subrange(i + 1, n as int));
        i = i + 1;
    }
    let mut j: usize = n;
    while i < j && is_whitespace(cs[j - 1])
        invariant
            n == cs@.len(),
            i <= j <= n,
            trimmed(cs@) == trim_end(cs@.subrange(i as int, j as int)),
        decreases j,
    {
        assert(cs@.subrange(i as int, j as int).drop_last() =~= cs@.subrange(i as int, j - 1));
        j = j - 1;
    }
    text_of(slice_subrange(cs.as_slice(), i, j))
}

proof fn lemma_trim_start(s: Seq<char>)
    ensures
        trim_start(s).len() <= s.len(),
        trim_start(s) == s.skip(s.len() - trim_start(s).len()),
        trim_start(s).len() > 0 ==> !is_space(trim_start(s)[0]),
        forall|i: int| 0 <= i < s.len() - trim_start(s).len() ==> is_space(#[trigger] s[i]),
    decreases s.len(),
{
    if s.len() > 0 && is_space(s[0]) {
        let rest = s.drop_first();
        lemma_trim_start(rest);
        let n = s.len() - trim_start(s).len();
        assert(rest.skip(n - 1) =~= s.skip(n));
        assert forall|i: int| 0 <= i < n implies is_space(#[trigger] s[i]) by {
            if i > 0 {
                assert(rest[i - 1] == s[i]);
            }
        }
    } else {
        assert(s.skip(0) =~= s);
    }
}

proof fn lemma_trim_end(s: Seq<char>)
    ensures
        trim_end(s).len() <= s.len(),
        trim_end(s) == s.take(trim_end(s).len() as int),
        trim_end(s).len() > 0 ==> !is_space(trim_end(s).last()),
        forall|i: int| trim_end(s).len() <= i < s.len() ==> is_space(#[trigger] s[i]),
    decreases s.len(),
{
    if s.len() > 0 && is_space(s.last()) {
        let rest = s.drop_last();
        lemma_trim_end(rest);
        let n = trim_end(s).len() as int;
        assert(rest.take(n) =~= s.take(n));
        assert forall|i: int| n <= i < s.len() implies is_space(#[trigger] s[i]) by {
            if i < s.len() - 1 {
                assert(rest[i] == s[i]);
            }
        }
    } else {
        assert(s.take(s.len() as int) =~= s);
    }
}

/// What trimming leaves is the part of a text between white space: it neither
/// begins nor ends with white space, and what is cut off is nothing else.
/// `front` tells how much is cut off in front.
pub proof fn trimming_cuts_white_space(s: Seq<char>) -> (front: int)
    ensures
        0 <= front <= front + trimmed(s).len() <= s.len(),
        trimmed(s) == s.subrange(front, front + trimmed(s).len()),
        forall|i: int| 0 <= i < front ==> is_space(#[trigger] s[i]),
        forall|i: int| front + trimmed(s).len() <= i < s.len() ==> is_space(#[trigger] s[i]),
        trimmed(s).len() > 0 ==> !is_space(trimmed(s)[0]) && !is_space(trimmed(s).last()),
        trimmed(trimmed(s)) == trimmed(s),
{
    let left = trim_start(s);
    lemma_trim_start(s);
    lemma_trim_end(left);
    let front = s.len() - left.len();
    let n = trimmed(s).len() as int;
    assert(s.skip(front).take(n) =~= s.subrange(front, front + n));
    assert forall|i: int| front + n <= i < s.len() implies is_space(#[trigger] s[i]) by {
        assert(left[i - front] == s[i]);
    }
    if n > 0 {
        assert(trimmed(s)[0] == left[0]);
    }
    front
}

/// `pat` stands in `s` at place `i`.
pub open spec fn occurs_at(s: Seq<char>, pat: Seq<char>, i: int) -> bool {
    0 <= i && i + pat.len() <= s.len() && s.subrange(i, i + pat.len()) == pat
}

/// The first place from `i` on at which `pat` stands in `s`.
pub open spec fn find_from(s: Seq<char>, pat: Seq<char>, i: int) -> Option<int>
    decreases s.len() + 1 - i,
{
    if i + pat.len() > s.len() {
        None
    } else if occurs_at(s, pat, i) {
        Some(i)
    } else {
        find_from(s, pat, i + 1)
    }
}

/// The first place at which `pat` stands in `s`.
pub open spec fn find(s: Seq<char>, pat: Seq<char>) -> Option<int> {
    find_from(s, pat, 0)
}

/// `pat` stands somewhere in `s`.
pub open spec fn has(s: Seq<char>, pat: Seq<char>) -> bool {
    find(s, pat) is Some
}

/// A search from `i` on gives the least place where the pattern stands.
pub proof fn lemma_find_from(s: Seq<char>, pat: Seq<char>, i: int)
    requires
        0 <= i,
    ensures
        match find_from(s, pat, i) {
            Some(k) => i <= k && occurs_at(s, pat, k) && (forall|m: int|
                i <= m < k ==> !#[trigger] occurs_at(s, pat, m)),
            None => forall|m: int| i <= m ==> !#[trigger] occurs_at(s, pat, m),
        },
    decreases s.len() + 1 - i,
{
    if i + pat.len() <= s.len() && !occurs_at(s, pat, i) {
        lemma_find_from(s, pat, i + 1);
    }
}

/// A search gives the least place where the pattern stands, and nothing
/// exactly where it stands nowhere.
pub proof fn lemma_find(s: Seq<char>, pat: Seq<char>)
    ensures
        match find(s, pat) {
            Some(k) => occurs_at(s, pat, k) && (forall|m: int|
                0 <= m < k ==> !#[trigger] occurs_at(s, pat, m)),
            None => forall|m: int| !#[trigger] occurs_at(s, pat, m),
        },
{
    lemma_find_from(s, pat, 0);
}

/// Says whether `pat` stands in `cs` at place `i`.
pub fn matches_at(cs: &[char], pat: &[char], i: usize) -> (r: bool)
    ensures
        r == occurs_at(cs@, pat@, i as int),
{
    if i > cs.len() || pat.len() > cs.len() - i {
        return false;
    }
    for k in 0..pat.len()
        invariant
            i + pat@.len() <= cs.len(),
            cs@.subrange(i as int, i + k) =~= pat@.take(k as int),
    {
        if cs[i + k] != pat[k] {
            assert(cs@.subrange(i as int, i + pat@.len())[k as int] != pat@[k as int]);
            return false;
        }
        assert(cs@.subrange(i as int, i + k + 1) =~= cs@.subrange(i as int, i + k).push(
            cs@[i + k],
        ));
    }
    assert(pat@.take(pat@.len() as int) =~= pat@);
    true
}

/// The first place at which `pat` stands in `cs`.
pub fn find_in(cs: &[char], pat: &[char]) -> (r: Option<usize>)
    ensures
        match r {
            Some(k) => find(cs@, pat@) == Some(k as int) && k + pat@.len() <= cs@.len(),
            None => find(cs@, pat@) is None,
        },
{
    let mut i: usize = 0;
    while i <= cs.len() && pat.len() <= cs.len() - i
        invariant
            i <= cs@.len() + 1,
            find(cs@, pat@) == find_from(cs@, pat@, i as int),
        decreases cs@.len() + 1 - i,
    {
        if matches_at(cs, pat, i) {
            return Some(i);
        }
        if i == cs.len() {
            assert(cs@.subrange(i as int, i as int) =~= pat@);
            return None;
        }
        i = i + 1;
    }
    None
}

/// Says whether `pat` stands somewhere in `s`.
pub fn contains(s: &str, pat: &str) -> (r: bool)
    ensures
        r == has(s@, pat@),
{
    let cs = chars_of(s);
    let ps = chars_of(pat);
    find_in(cs.as_slice(), ps.as_slice()).is_some()
}

/// `s` begins with `pat`.
pub open spec fn begins(s: Seq<char>, pat: Seq<char>) -> bool {
    occurs_at(s, pat, 0)
}

/// Says whether `s` begins with `pat`.
pub fn starts_with(s: &str, pat: &str) -> (r: bool)
    ensures
        r == begins(s@, pat@),
{
    let cs = chars_of(s);
    let ps = chars_of(pat);
    matches_at(cs.as_slice(), ps.as_slice(), 0)
}

/// What is left of `s` behind `pat`, where `s` begins with `pat`.
pub open spec fn stripped(s: Seq<char>, pat: Seq<char>) -> Option<Seq<char>> {
    if begins(s, pat) {
        Some(s.skip(pat.len() as int))
    } else {
        None
    }
}

/// What is left of `s` behind `pat`, where `s` begins with `pat`.
pub fn strip_prefix(s: &str, pat: &str) -> (r: Option<String>)
    ensures
        r.deep_view() == stripped(s@, pat@),
{
    let cs = chars_of(s);
    let ps = chars_of(pat);
    if matches_at(cs.as_slice(), ps.as_slice(), 0) {
        let rest = text_of(slice_subrange(cs.as_slice(), ps.len(), cs.len()));
        assert(rest@ =~= s@.skip(pat@.len() as int));
        Some(rest)
    } else {
        None
    }
}

/// Says whether two texts hold the same characters.
pub fn same_text(a: &str, b: &str) -> (r: bool)
    ensures
        r == (a@ == b@),
{
    let x = chars_of(a);
    let y = chars_of(b);
    if x.len() != y.len() {
        return false;
    }
    let r = matches_at(x.as_slice(), y.as_slice(), 0);
    assert(x@.subrange(0, x@.len() as int) =~= x@);
    r
}

/// The pieces of `s` between the places where `pat` stands, taken from the
/// left and without overlap.
pub open spec fn split(s: Seq<char>, pat: Seq<char>) -> Seq<Seq<char>>
    decreases s.len(),
{
    match find(s, pat) {
        Some(i) if pat.len() > 0 => {
            proof {
                lemma_find(s, pat);
            }
            seq![s.take(i)] + split(s.skip(i + pat.len()), pat)
        },
        _ => seq![s],
    }
}

/// The pieces of `s` between the places where `pat` stands.
pub fn split_text(s: &str, pat: &str) -> (r: Vec<String>)
    requires
        pat@.len() > 0,
    ensures
        r.deep_view() == split(s@, pat@),
{
    let cs = chars_of(s);
    let ps = chars_of(pat);
    let mut out: Vec<String> = Vec::new();
    let mut at: usize = 0;
    assert(cs@.skip(0) =~= cs@);
    assert(out.deep_view() + split(s@, pat@) =~= split(s@, pat@));
    loop
        invariant
            cs@ == s@,
            ps@ == pat@,
            pat@.len() > 0,
            at <= cs@.len(),
            out.deep_view() + split(cs@.skip(at as int), pat@) =~= split(s@, pat@),
        decreases cs@.len() - at,
    {
        let rest = slice_subrange(cs.as_slice(), at, cs.len());
        assert(rest@ =~= cs@.skip(at as int));
        match find_in(rest, ps.as_slice()) {
            Some(k) => {
                let ghost before = out.deep_view();
                let piece = text_of(slice_subrange(rest, 0, k));
                assert(piece@ =~= rest@.take(k as int));
                out.push(piece);
                assert(out.deep_view() =~= before.push(piece@));
                at = at + k + ps.len();
                assert(rest@.skip(k + pat@.len()) =~= cs@.skip(at as int));
            },
            None => {
                let ghost before = out.deep_view();
                let piece = text_of(rest);
                out.push(piece);
                assert(out.deep_view() =~= before.push(piece@));
                return out;
            },
        }
    }
}

/// A line without the carriage return at its end.
pub open spec fn without_return(s: Seq<char>) -> Seq<char> {
    if s.len() > 0 && s.last() == '\r' {
        s.drop_last()
    } else {
        s
    }
}

/// The lines of `s`. A line ends at a line feed, or at a carriage return and a
/// line feed; what stands behind the last line feed is a line if it is not
/// empty.
pub open spec fn lines(s: Seq<char>) -> Seq<Seq<char>>
    decreases s.len(),
{
    if s.len() == 0 {
        seq![]
    } else {
        match find(s, seq!['\n']) {
            Some(i) => {
                proof {
                    lemma_find(s, seq!['\n']);
                }
                seq![without_return(s.take(i))] + lines(s.skip(i + 1))
            },
            None => seq![s],
        }
    }
}

/// The lines of `s`.
pub fn lines_of(s: &str) -> (r: Vec<String>)
    ensures
        r.deep_view() == lines(s@),
{
    let cs = chars_of(s);
    let mut feed: Vec<char> = Vec::new();
    feed.push('\n');
    assert(feed@ =~= seq!['\n']);
    let mut out: Vec<String> = Vec::new();
    let mut at: usize = 0;
    assert(cs@.skip(0) =~= cs@);
    assert(out.deep_view() + lines(s@) =~= lines(s@));
    while at < cs.len()
        invariant
            cs@ == s@,
            feed@ == seq!['\n'],
            at <= cs@.len(),
            out.deep_view() + lines(cs@.skip(at as int)) =~= lines(s@),
        decreases cs@.len() - at,
    {
        let rest = slice_subrange(cs.as_slice(), at, cs.len());
        assert(rest@ =~= cs@.skip(at as int));
        match find_in(rest, feed.as_slice()) {
            Some(k) => {
                let ghost before = out.deep_view();
                let end: usize = if k > 0 && rest[k - 1] == '\r' {
                    k - 1
                } else {
                    k
                };
                let piece = text_of(slice_subrange(rest, 0, end));
                assert(piece@ =~= without_return(rest@.take(k as int)));
                out.push(piece);
                assert(out.deep_view() =~= before.push(piece@));
                at = at + k + 1;
                assert(rest@.skip(k + 1) =~= cs@.skip(at as int));
            },
            None => {
                let ghost before = out.deep_view();
                let piece = text_of(rest);
                out.push(piece);
                assert(out.deep_view() =~= before.push(piece@));
                return out;
            },
        }
    }
    out
}

/// `s` with `with` in each place where `pat` stands, taken from the left and
/// without overlap.
pub open spec fn replaced(s: Seq<char>, pat: Seq<char>, with: Seq<char>) -> Seq<char>
    decreases s.len(),
{
    match find(s, pat) {
        Some(i) if pat.len() > 0 => {
            proof {
                lemma_find(s, pat);
            }
            s.take(i) + with + replaced(s.skip(i + pat.len()), pat, with)
        },
        _ => s,
    }
}

/// `s` with `with` in each place where `pat` stands.
pub fn replace(s: &str, pat: &str, with: &str) -> (r: String)
    requires
        pat@.len() > 0,
    ensures
        r@ == replaced(s@, pat@, with@),
{
    let cs = chars_of(s);
    let ps = chars_of(pat);
    let mut out = String::new();
    let mut at: usize = 0;
    assert(cs@.skip(0) =~= cs@);
    assert(out@ + replaced(s@, pat@, with@) =~= replaced(s@, pat@, with@));
    loop
        invariant
            cs@ == s@,
            ps@ == pat@,
            pat@.len() > 0,
            at <= cs@.len(),
            out@ + replaced(cs@.skip(at as int), pat@, with@) =~= replaced(s@, pat@, with@),
        decreases cs@.len() - at,
    {
        let rest = slice_subrange(cs.as_slice(), at, cs.len());
        assert(rest@ =~= cs@.skip(at as int));
        match find_in(rest, ps.as_slice()) {
            Some(k) => {
                let piece = text_of(slice_subrange(rest, 0, k));
                assert(piece@ =~= rest@.take(k as int));
                out.append(piece.as_str());
                out.append(with);
                at = at + k + ps.len();
                assert(rest@.skip(k + pat@.len()) =~= cs@.skip(at as int));
            },
            None => {
                let piece = text_of(rest);
                out.append(piece.as_str());
                return out;
            },
        }
    }
}

/// `s` without the characters `c` at its end.
pub open spec fn without_tail(s: Seq<char>, c: char) -> Seq<char>
    decreases s.len(),
{
    if s.len() > 0 && s.last() == c {
        without_tail(s.drop_last(), c)
    } else {
        s
    }
}

/// The texts of `parts` with `sep` between them.
pub open spec fn joined(parts: Seq<Seq<char>>, sep: Seq<char>) -> Seq<char>
    decreases parts.len(),
{
    if parts.len() == 0 {
        seq![]
    } else if parts.len() == 1 {
        parts[0]
    } else {
        joined(parts.drop_last(), sep) + sep + parts.last()
    }
}

/// The texts of `parts` from place `from` on with `sep` between them.
pub fn join_from(parts: &Vec<String>, from: usize, sep: &str) -> (r: String)
    requires
        from <= parts@.len(),
    ensures
        r@ == joined(parts.deep_view().skip(from as int), sep@),
{
    let ghost all = parts.deep_view().skip(from as int);
    let mut out = String::new();
    for i in from..parts.len()
        invariant
            from <= parts@.len(),
            all == parts.deep_view().skip(from as int),
            out@ == joined(all.take(i - from), sep@),
    {
        assert(all.take(i - from + 1).drop_last() =~= all.take(i - from));
        assert(all.take(i - from + 1).last() == parts@[i as int]@);
        if i > from {
            out.append(sep);
        }
        out.append(parts[i].as_str());
        assert(out@ =~= joined(all.take(i - from + 1), sep@));
    }
    assert(all.take(all.len() as int) =~= all);
    out
}

/// The texts of `parts` with `sep` between them.
pub fn join(parts: &Vec<String>, sep: &str) -> (r: String)
    ensures
        r@ == joined(parts.deep_view(), sep@),
{
    assert(parts.deep_view().skip(0) =~= parts.deep_view());
    join_from(parts, 0, sep)
}

/// The texts that hold more than white space, without the white space around
/// them.
pub open spec fn inked(texts: Seq<Seq<char>>) -> Seq<Seq<char>>
    decreases texts.len(),
{
    if texts.len() == 0 {
        seq![]
    } else if trimmed(texts.last()).len() == 0 {
        inked(texts.drop_last())
    } else {
        inked(texts.drop_last()).push(trimmed(texts.last()))
    }
}

/// The texts that hold more than white space, without the white space around
/// them.
pub fn trim_all(texts: &Vec<String>) -> (r: Vec<String>)
    ensures
        r.deep_view() == inked(texts.deep_view()),
{
    let ghost all = texts.deep_view();
    let mut out: Vec<String> = Vec::new();
    assert(out.deep_view() =~= inked(all.take(0)));
    for i in 0..texts.len()
        invariant
            all == texts.deep_view(),
            out.deep_view() == inked(all.take(i as int)),
    {
        assert(all.take(i + 1).drop_last() =~= all.take(i as int));
        assert(all.take(i + 1).last() == texts@[i as int]@);
        let inner = trim(texts[i].as_str());
        if !inner.as_str().is_empty() {
            let ghost before = out.deep_view();
            out.push(inner);
            assert(out.deep_view() =~= before.push(inner@));
        }
    }
    assert(all.take(all.len() as int) =~= all);
    out
}

} // verus!
