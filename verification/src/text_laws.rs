//! What holds of the functions on texts, in terms of their characters alone.

use crate::numbers;
use crate::text;
use vstd::prelude::*;

verus! {

/// A search for one character finds nothing exactly where the text does not hold
/// it.
pub proof fn lemma_find_char(s: Seq<char>, c: char)
    ensures
        match text::find(s, seq![c]) {
            Some(i) => 0 <= i < s.len() && s[i] == c && !s.take(i).contains(c),
            None => !s.contains(c),
        },
{
    let one = seq![c];
    text::lemma_find(s, one);
    let n = match text::find(s, one) {
        Some(i) => i,
        None => s.len() as int,
    };
    if n < s.len() {
        assert(s.subrange(n, n + 1)[0] == c);
    }
    assert forall|k: int| 0 <= k < n implies s[k] != c by {
        assert(!text::occurs_at(s, one, k));
        if s[k] == c {
            assert(s.subrange(k, k + 1) =~= one);
        }
    }
}

/// A text is cut into lines at its line feeds: what stands before the first one
/// is the first line, without a carriage return at its end, and the lines of
/// what stands behind it follow. Without a line feed there is one line, unless
/// there is nothing.
pub proof fn lines_end_at_line_feeds(head: Seq<char>, rest: Seq<char>)
    requires
        !head.contains('\n'),
    ensures
        text::lines(head + seq!['\n'] + rest) == seq![
            if head.len() > 0 && head.last() == '\r' {
                head.drop_last()
            } else {
                head
            },
        ] + text::lines(rest),
        text::lines(head) == if head.len() == 0 {
            Seq::<Seq<char>>::empty()
        } else {
            seq![head]
        },
{
    let whole = head + seq!['\n'] + rest;
    let n = head.len() as int;
    lemma_find_char(whole, '\n');
    lemma_find_char(head, '\n');
    assert(whole[n] == '\n');
    assert(whole.contains(whole[n]));
    let i = text::find(whole, seq!['\n'])->0;
    if i < n {
        assert(head[i] == whole[i]);
        assert(head.contains(head[i]));
    }
    if n < i {
        assert(whole.take(i)[n] == '\n');
    }
    assert(whole.take(n) =~= head);
    assert(whole.skip(n + 1) =~= rest);
}

/// The characters of `pat` stand in `s` from place `i` on.
pub open spec fn stands_at(s: Seq<char>, pat: Seq<char>, i: int) -> bool {
    0 <= i <= s.len() - pat.len() && forall|k: int|
        0 <= k < pat.len() ==> s[i + k] == #[trigger] pat[k]
}

/// The places where a text stands are those that a search looks for.
pub proof fn lemma_stands_at(s: Seq<char>, pat: Seq<char>, i: int)
    ensures
        stands_at(s, pat, i) == text::occurs_at(s, pat, i),
{
    if 0 <= i <= s.len() - pat.len() {
        let part = s.subrange(i, i + pat.len());
        if stands_at(s, pat, i) {
            assert forall|k: int| 0 <= k < pat.len() implies part[k] == pat[k] by {
                assert(s[i + k] == pat[k]);
            }
            assert(part =~= pat);
        }
        if part == pat {
            assert forall|k: int| 0 <= k < pat.len() implies s[i + k] == #[trigger] pat[k] by {
                assert(part[k] == s[i + k]);
            }
        }
    }
}

/// A text is found in another one where its characters stand in it, one behind
/// the other.
pub proof fn found_texts_stand_in_the_text(s: Seq<char>, pat: Seq<char>)
    ensures
        text::has(s, pat) <==> exists|i: int| #[trigger] stands_at(s, pat, i),
        text::begins(s, pat) <==> stands_at(s, pat, 0),
{
    text::lemma_find(s, pat);
    lemma_stands_at(s, pat, 0);
    if text::has(s, pat) {
        lemma_stands_at(s, pat, text::find(s, pat)->0);
    }
    if exists|i: int| #[trigger] stands_at(s, pat, i) {
        let i = choose|i: int| #[trigger] stands_at(s, pat, i);
        lemma_stands_at(s, pat, i);
        assert(text::occurs_at(s, pat, i));
    }
}

/// What is left behind a front is what stands behind it.
pub proof fn fronts_are_cut_off(front: Seq<char>, rest: Seq<char>, s: Seq<char>)
    ensures
        text::stripped(front + rest, front) == Some(rest),
        text::stripped(s, front) matches Some(left) ==> s == front + left,
        text::stripped(s, front) is None ==> s.len() < front.len() || s.take(front.len() as int)
            != front,
{
    let whole = front + rest;
    let n = front.len() as int;
    assert(whole.subrange(0, n) =~= front);
    assert(whole.skip(n) =~= rest);
    if text::begins(s, front) {
        assert(s =~= s.subrange(0, n) + s.skip(n));
    }
    if n <= s.len() {
        assert(s.subrange(0, n) =~= s.take(n));
    }
}

proof fn lemma_joined_front(a: Seq<char>, more: Seq<Seq<char>>, sep: Seq<char>)
    requires
        more.len() > 0,
    ensures
        text::joined(seq![a] + more, sep) == a + sep + text::joined(more, sep),
    decreases more.len(),
{
    let all = seq![a] + more;
    assert(all.drop_last() =~= seq![a] + more.drop_last());
    assert(all.last() == more.last());
    if more.len() == 1 {
        assert(all.drop_last() =~= seq![a]);
        assert(text::joined(seq![a], sep) == a);
    } else {
        lemma_joined_front(a, more.drop_last(), sep);
        let inner = text::joined(more.drop_last(), sep);
        assert((a + sep + inner) + sep + more.last() =~= a + sep + (inner + sep + more.last()));
    }
}

/// Texts that are joined stand one behind the other, with the separator between
/// each two.
pub proof fn joined_texts_stand_in_order(
    first: Seq<char>,
    more: Seq<Seq<char>>,
    sep: Seq<char>,
)
    ensures
        text::joined(Seq::<Seq<char>>::empty(), sep) == Seq::<char>::empty(),
        text::joined(seq![first], sep) == first,
        more.len() > 0 ==> text::joined(seq![first] + more, sep) == first + sep + text::joined(
            more,
            sep,
        ),
{
    if more.len() > 0 {
        lemma_joined_front(first, more, sep);
    }
}

/// The pieces of a text, joined by the separator, are the text again, and none
/// of them holds the separator.
pub proof fn pieces_join_to_the_text(s: Seq<char>, pat: Seq<char>)
    requires
        pat.len() > 0,
    ensures
        text::split(s, pat).len() > 0,
        text::joined(text::split(s, pat), pat) == s,
        forall|k: int|
            0 <= k < text::split(s, pat).len() ==> !text::has(
                #[trigger] text::split(s, pat)[k],
                pat,
            ),
    decreases s.len(),
{
    text::lemma_find(s, pat);
    match text::find(s, pat) {
        Some(i) => {
            let head = s.take(i);
            let rest = s.skip(i + pat.len());
            pieces_join_to_the_text(rest, pat);
            let more = text::split(rest, pat);
            joined_texts_stand_in_order(head, more, pat);
            assert(s.subrange(i, i + pat.len()) == pat);
            assert(head + s.subrange(i, i + pat.len()) + rest =~= s);
            text::lemma_find(head, pat);
            if text::has(head, pat) {
                let k = text::find(head, pat)->0;
                assert(head.subrange(k, k + pat.len()) =~= s.subrange(k, k + pat.len()));
                assert(text::occurs_at(s, pat, k));
            }
            let all = text::split(s, pat);
            assert(all == seq![head] + more);
            assert forall|k: int| 0 <= k < all.len() implies !text::has(#[trigger] all[k], pat) by {
                if k > 0 {
                    assert(all[k] == more[k - 1]);
                }
            }
        },
        None => {},
    }
}

/// Each text that holds more than white space is kept, without the white space
/// around it, in its place among the others; all others go.
pub proof fn inked_texts_keep_their_order(a: Seq<Seq<char>>, s: Seq<char>, b: Seq<Seq<char>>)
    ensures
        text::inked(a + b) == text::inked(a) + text::inked(b),
        text::inked(seq![s]) == if text::trimmed(s).len() == 0 {
            Seq::<Seq<char>>::empty()
        } else {
            seq![text::trimmed(s)]
        },
    decreases b.len(),
{
    assert(seq![s].drop_last() =~= seq![]);
    assert(text::inked(Seq::<Seq<char>>::empty()) =~= seq![]);
    assert(text::inked(seq![s]) =~= if text::trimmed(s).len() == 0 {
        Seq::<Seq<char>>::empty()
    } else {
        seq![text::trimmed(s)]
    });
    if b.len() == 0 {
        assert(a + b =~= a);
        assert(text::inked(a) + text::inked(b) =~= text::inked(a));
    } else {
        inked_texts_keep_their_order(a, s, b.drop_last());
        assert((a + b).drop_last() =~= a + b.drop_last());
        assert((a + b).last() == b.last());
        assert(text::inked(a + b) =~= text::inked(a) + text::inked(b));
    }
}

/// What is replaced in a text is each place where the pattern stands, from the
/// front on; all else stays.
pub proof fn replacing_changes_nothing_else(
    head: Seq<char>,
    pat: Seq<char>,
    rest: Seq<char>,
    with: Seq<char>,
)
    requires
        pat.len() > 0,
        forall|i: int| 0 <= i < head.len() ==> !#[trigger] stands_at(head + pat + rest, pat, i),
    ensures
        text::replaced(head + pat + rest, pat, with) == head + with + text::replaced(
            rest,
            pat,
            with,
        ),
        !text::has(rest, pat) ==> text::replaced(rest, pat, with) == rest,
{
    let whole = head + pat + rest;
    let n = head.len() as int;
    text::lemma_find(whole, pat);
    assert(whole.subrange(n, n + pat.len()) =~= pat);
    assert(text::occurs_at(whole, pat, n));
    let i = text::find(whole, pat)->0;
    if i < n {
        lemma_stands_at(whole, pat, i);
    }
    assert(whole.take(n) =~= head);
    assert(whole.skip(n + pat.len()) =~= rest);
}

proof fn lemma_zero_before(s: Seq<char>)
    ensures
        numbers::digits_value(seq!['0'] + s) == numbers::digits_value(s),
    decreases s.len(),
{
    let longer = seq!['0'] + s;
    if s.len() == 0 {
        assert(longer =~= seq!['0']);
        assert(longer.drop_last() =~= seq![]);
        assert(numbers::digits_value(longer.drop_last()) == 0);
    } else {
        lemma_zero_before(s.drop_last());
        assert(longer.drop_last() =~= seq!['0'] + s.drop_last());
        assert(longer.last() == s.last());
    }
}

/// The decimal text of a number that fits in 32 bits is read as that number, with a
/// plus sign or a zero before it too; that of a greater number is not read.
pub proof fn written_numbers_are_read(n: u32, more: nat)
    requires
        more > u32::MAX,
    ensures
        numbers::parsed_u32(numbers::decimal(n as nat)) == Some(n),
        numbers::parsed_u32(seq!['+'] + numbers::decimal(n as nat)) == Some(n),
        numbers::parsed_u32(seq!['0'] + numbers::decimal(n as nat)) == Some(n),
        numbers::parsed_u32(numbers::decimal(more)) is None,
{
    numbers::decimal_reads_back(n as nat);
    numbers::decimal_reads_back(more);
    let s = numbers::decimal(n as nat);
    assert(numbers::is_digit(s[0]));
    assert((seq!['+'] + s).drop_first() =~= s);
    lemma_zero_before(s);
    let padded = seq!['0'] + s;
    assert forall|i: int| 0 <= i < padded.len() implies numbers::is_digit(
        #[trigger] padded[i],
    ) by {
        if i > 0 {
            assert(padded[i] == s[i - 1]);
        }
    }
    let large = numbers::decimal(more);
    assert(numbers::is_digit(large[0]));
}

/// What is written with a minus, or with anything else that is no digit, is no
/// number.
pub proof fn other_texts_are_no_numbers(s: Seq<char>, i: int)
    requires
        0 <= i < s.len(),
        s[i] < '0' || s[i] > '9',
        i > 0 || s[i] != '+' || s.len() == 1,
    ensures
        numbers::parsed_u32(s) is None,
{
    if s.len() > 1 && s[0] == '+' {
        assert(s.drop_first()[i - 1] == s[i]);
        assert(!numbers::is_digit(s.drop_first()[i - 1]));
    } else {
        assert(!numbers::is_digit(s[i]));
    }
}

/// What stands before the first place of a character is the first piece of a text
/// that is cut at it, and the pieces of what stands behind follow. A text without
/// the character is one piece.
pub proof fn texts_are_cut_at_each_character(head: Seq<char>, c: char, rest: Seq<char>)
    requires
        !head.contains(c),
    ensures
        text::split(head + seq![c] + rest, seq![c]) == seq![head] + text::split(rest, seq![c]),
        text::split(head, seq![c]) == seq![head],
{
    let whole = head + seq![c] + rest;
    let n = head.len() as int;
    lemma_find_char(whole, c);
    lemma_find_char(head, c);
    assert(whole[n] == c);
    assert(whole.contains(whole[n]));
    let i = text::find(whole, seq![c])->0;
    if i < n {
        assert(head[i] == whole[i]);
        assert(head.contains(head[i]));
    }
    if n < i {
        assert(whole.take(i)[n] == c);
    }
    assert(whole.take(n) =~= head);
    assert(whole.skip(n + 1) =~= rest);
}

/// Numbers are written in decimal digits: one for each number below ten, and else the
/// digit of what is left over behind the tens.
pub proof fn numbers_are_written_in_tens(n: nat, d: nat)
    requires
        n > 0,
        d < 10,
    ensures
        numbers::decimal(10 * n + d) == numbers::decimal(n) + numbers::decimal(d),
        numbers::decimal(0) == seq!['0'],
        numbers::decimal(1) == seq!['1'],
        numbers::decimal(2) == seq!['2'],
        numbers::decimal(3) == seq!['3'],
        numbers::decimal(4) == seq!['4'],
        numbers::decimal(5) == seq!['5'],
        numbers::decimal(6) == seq!['6'],
        numbers::decimal(7) == seq!['7'],
        numbers::decimal(8) == seq!['8'],
        numbers::decimal(9) == seq!['9'],
{
    let whole = 10 * n + d;
    assert(whole / 10 == n && whole % 10 == d);
    assert(numbers::decimal(n).push(numbers::digit_char(d)) =~= numbers::decimal(n)
        + numbers::decimal(d));
}

/// White space is what Unicode calls so: among the first characters the space, the tab,
/// the two line breaks, the vertical tab and the form feed, and nothing that is seen.
pub proof fn white_space_is_not_seen(c: char)
    ensures
        (c as u32) < 0x80 ==> (text::is_space(c) <==> seq![
            '\t',
            '\n',
            '\u{b}',
            '\u{c}',
            '\r',
            ' ',
        ].contains(c)),
        (c as u32) >= 0x80 ==> (text::is_space(c) <==> seq![
            '\u{85}',
            '\u{a0}',
            '\u{1680}',
            '\u{2000}',
            '\u{2001}',
            '\u{2002}',
            '\u{2003}',
            '\u{2004}',
            '\u{2005}',
            '\u{2006}',
            '\u{2007}',
            '\u{2008}',
            '\u{2009}',
            '\u{200a}',
            '\u{2028}',
            '\u{2029}',
            '\u{202f}',
            '\u{205f}',
            '\u{3000}',
        ].contains(c)),
{
    let first = seq!['\t', '\n', '\u{b}', '\u{c}', '\r', ' '];
    let others = seq![
        '\u{85}',
        '\u{a0}',
        '\u{1680}',
        '\u{2000}',
        '\u{2001}',
        '\u{2002}',
        '\u{2003}',
        '\u{2004}',
        '\u{2005}',
        '\u{2006}',
        '\u{2007}',
        '\u{2008}',
        '\u{2009}',
        '\u{200a}',
        '\u{2028}',
        '\u{2029}',
        '\u{202f}',
        '\u{205f}',
        '\u{3000}',
    ];
    let n = c as u32;
    if n < 0x80 && text::is_space(c) {
        let k = if n == 0x20 {
            5
        } else {
            n - 9
        };
        assert(first[k] == c);
    }
    if n >= 0x80 && text::is_space(c) {
        let k = if n == 0x85 {
            0
        } else if n == 0xa0 {
            1
        } else if n == 0x1680 {
            2
        } else if n <= 0x200a {
            n - 0x2000 + 3
        } else if n == 0x2028 {
            14
        } else if n == 0x2029 {
            15
        } else if n == 0x202f {
            16
        } else if n == 0x205f {
            17
        } else {
            18
        };
        assert(others[k] == c);
    }
}

/// A text without the white space around it is what stands between the white space.
pub proof fn texts_are_trimmed_at_both_ends(a: Seq<char>, s: Seq<char>, b: Seq<char>)
    requires
        forall|i: int| 0 <= i < a.len() ==> text::is_space(#[trigger] a[i]),
        forall|i: int| 0 <= i < b.len() ==> text::is_space(#[trigger] b[i]),
        s.len() > 0 ==> !text::is_space(s[0]) && !text::is_space(s.last()),
    ensures
        text::trimmed(a + s + b) == s,
{
    let whole = a + s + b;
    let front = text::trimming_cuts_white_space(whole);
    let left = text::trimmed(whole);
    let n = left.len() as int;
    if s.len() == 0 {
        if n > 0 {
            assert(left[0] == whole[front]);
            if front < a.len() {
                assert(whole[front] == a[front]);
            } else {
                assert(whole[front] == b[front - a.len()]);
            }
        }
        assert(left =~= s);
    } else {
        let k = a.len() as int;
        let m = k + s.len();
        assert(whole[k] == s[0] && whole[m - 1] == s.last());
        assert(front <= k && m - 1 < front + n);
        if front < k {
            assert(left[0] == whole[front]);
            assert(whole[front] == a[front]);
        }
        if front + n > m {
            assert(left[n - 1] == whole[front + n - 1]);
            assert(whole[front + n - 1] == b[front + n - 1 - m]);
        }
        assert(whole.subrange(k, m) =~= s);
    }
}

} // verus!
