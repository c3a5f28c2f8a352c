//! Which files can be mentioned, in terms of what a walk met.

use crate::encoding;
use crate::order;
use crate::platform::Platform;
use crate::system_ops::attachments;
use crate::system_ops::exchange::{FsAction, FsReplyView, FsStep, WalkEntryView};
use crate::system_ops::laws;
use crate::system_ops::mentions;
use crate::text;
use vstd::prelude::*;

verus! {

/// A path lies in a directory that could be resolved: the parts of the directory
/// are the first parts of the path.
pub open spec fn lies_in(parts: Seq<Seq<u8>>, root: Option<Seq<Seq<u8>>>) -> bool {
    root matches Some(root) && root.len() <= parts.len() && forall|k: int|
        0 <= k < root.len() ==> parts[k] == #[trigger] root[k]
}

/// A path lies in one of some directories, whichever it is.
pub open spec fn lies_in_some(parts: Seq<Seq<u8>>, roots: Seq<Option<Seq<Seq<u8>>>>) -> bool {
    exists|i: int| 0 <= i < roots.len() && lies_in(parts, #[trigger] roots[i])
}

/// Something that a walk met can be mentioned: it is known to be a file, and its
/// path without links is known and lies in one of the directories.
pub open spec fn fits(entry: WalkEntryView, roots: Seq<Option<Seq<Seq<u8>>>>) -> bool {
    entry.is_file == Some(true) && (entry.canonical matches Some(path) && lies_in_some(
        path.parts,
        roots,
    ))
}

/// What was met at `i` is the same file as what was met at one of some places, and
/// not before it.
pub open spec fn is_taken(entries: Seq<WalkEntryView>, places: Seq<int>, i: int) -> bool {
    exists|k: int|
        0 <= k < places.len() && #[trigger] places[k] <= i && entries[places[k]].canonical->0.text
            == entries[i].canonical->0.text
}

proof fn lemma_resolved(parts: Seq<Seq<u8>>, roots: Seq<Option<Seq<Seq<u8>>>>)
    ensures
        mentions::within_any(parts, mentions::resolved(roots)) == lies_in_some(parts, roots),
    decreases roots.len(),
{
    let kept = mentions::resolved(roots);
    if roots.len() > 0 {
        let front = roots.drop_last();
        let n = roots.len() - 1;
        let before = mentions::resolved(front);
        lemma_resolved(parts, front);
        if let Some(root) = roots[n] {
            assert(mentions::within(parts, root) == lies_in(parts, roots[n])) by {
                if lies_in(parts, roots[n]) {
                    assert(parts.take(root.len() as int) =~= root);
                }
                if mentions::within(parts, root) {
                    assert forall|k: int| 0 <= k < root.len() implies parts[k]
                        == #[trigger] root[k] by {
                        assert(parts.take(root.len() as int)[k] == root[k]);
                    }
                }
            }
        }
        if mentions::within_any(parts, kept) {
            let i = choose|i: int|
                0 <= i < kept.len() && #[trigger] mentions::within(parts, kept[i]);
            if i < before.len() {
                assert(kept[i] == before[i]);
                assert(mentions::within(parts, before[i]));
                let j = choose|j: int| 0 <= j < front.len() && lies_in(parts, #[trigger] front[j]);
                assert(roots[j] == front[j]);
            } else {
                assert(lies_in(parts, roots[n]));
            }
        }
        if lies_in_some(parts, roots) {
            let j = choose|j: int| 0 <= j < roots.len() && lies_in(parts, #[trigger] roots[j]);
            if j < n {
                assert(front[j] == roots[j]);
                let i = choose|i: int|
                    0 <= i < before.len() && #[trigger] mentions::within(parts, before[i]);
                assert(kept[i] == before[i]);
                assert(mentions::within(parts, kept[i]));
            } else {
                assert(mentions::within(parts, kept[before.len() as int]));
            }
        }
    }
}

proof fn lemma_candidate(entry: WalkEntryView, roots: Seq<Option<Seq<Seq<u8>>>>)
    ensures
        mentions::candidate(mentions::resolved(roots), entry) == if fits(entry, roots) {
            Some(entry.canonical->0.text)
        } else {
            None
        },
{
    if let Some(path) = entry.canonical {
        lemma_resolved(path.parts, roots);
    }
}

/// What a scan has taken when it has met some things.
pub open spec fn has_taken(
    entries: Seq<WalkEntryView>,
    roots: Seq<Option<Seq<Seq<u8>>>>,
    limit: usize,
    files: Seq<Seq<char>>,
    places: Seq<int>,
) -> bool {
    &&& files.len() <= limit
    &&& laws::ascending(places, entries.len() as int)
    &&& places.len() == files.len()
    &&& forall|k: int|
        0 <= k < places.len() ==> files[k] == entries[#[trigger] places[k]].path && fits(
            entries[places[k]],
            roots,
        )
    &&& forall|k: int, m: int|
        #![trigger places[k], places[m]]
        0 <= k < m < places.len() ==> entries[places[k]].canonical->0.text
            != entries[places[m]].canonical->0.text
    &&& forall|i: int|
        0 <= i < entries.len() && fits(#[trigger] entries[i], roots) && (files.len() < limit || (
        places.len() > 0 && i < places.last())) ==> is_taken(entries, places, i)
}

proof fn lemma_taken(
    roots: Seq<Option<Seq<Seq<u8>>>>,
    limit: usize,
    entries: Seq<WalkEntryView>,
) -> (places: Seq<int>)
    ensures
        ({
            let scan = mentions::scanned(
                mentions::fresh_scan(mentions::resolved(roots), limit),
                entries,
            );
            &&& scan.roots == mentions::resolved(roots)
            &&& scan.limit == limit
            &&& has_taken(entries, roots, limit, scan.files, places)
            &&& forall|k: int|
                0 <= k < places.len() ==> scan.seen.contains(
                    entries[#[trigger] places[k]].canonical->0.text,
                )
            &&& forall|key: Seq<char>| #[trigger]
                scan.seen.contains(key) ==> exists|k: int|
                    0 <= k < places.len() && entries[#[trigger] places[k]].canonical->0.text == key
        }),
    decreases entries.len(),
{
    let fresh = mentions::fresh_scan(mentions::resolved(roots), limit);
    if entries.len() == 0 {
        seq![]
    } else {
        let n = entries.len() - 1;
        let front = entries.drop_last();
        let before = lemma_taken(roots, limit, front);
        let old_scan = mentions::scanned(fresh, front);
        let scan = mentions::scanned(fresh, entries);
        laws::lemma_ascending_push(before, n);
        lemma_candidate(entries[n], roots);
        assert(scan == mentions::offered(old_scan, entries[n]));
        let key = entries[n].canonical->0.text;
        let takes = fits(entries[n], roots) && old_scan.files.len() < limit
            && !old_scan.seen.contains(key);
        let places = if takes {
            before.push(n)
        } else {
            before
        };
        assert forall|k: int| 0 <= k < before.len() implies places[k] == #[trigger] before[k]
            && entries[before[k]] == front[before[k]] by {}
        assert forall|k: int| 0 <= k < places.len() implies scan.files[k]
            == entries[#[trigger] places[k]].path && fits(entries[places[k]], roots)
            && scan.seen.contains(entries[places[k]].canonical->0.text) by {
            if k < before.len() {
                assert(places[k] == before[k]);
            }
        }
        assert forall|k: int, m: int|
            #![trigger places[k], places[m]]
            0 <= k < m < places.len() implies entries[places[k]].canonical->0.text
            != entries[places[m]].canonical->0.text by {
            assert(places[k] == before[k]);
            if m < before.len() {
                assert(places[m] == before[m]);
            }
        }
        assert forall|other: Seq<char>| #[trigger] scan.seen.contains(other) implies exists|k: int|
            0 <= k < places.len() && entries[#[trigger] places[k]].canonical->0.text == other by {
            if old_scan.seen.contains(other) {
                let k = choose|k: int|
                    0 <= k < before.len() && front[#[trigger] before[k]].canonical->0.text == other;
                assert(places[k] == before[k]);
            } else {
                assert(places[before.len() as int] == n);
            }
        }
        assert forall|i: int|
            0 <= i < entries.len() && fits(#[trigger] entries[i], roots) && (scan.files.len()
                < limit || (places.len() > 0 && i < places.last())) implies is_taken(
            entries,
            places,
            i,
        ) by {
            if i < n {
                assert(front[i] == entries[i]);
                assert(is_taken(front, before, i));
                let k = choose|k: int|
                    0 <= k < before.len() && #[trigger] before[k] <= i
                        && front[before[k]].canonical->0.text == front[i].canonical->0.text;
                assert(places[k] == before[k]);
            } else if takes {
                assert(places[before.len() as int] == n);
            } else {
                assert(old_scan.seen.contains(key));
                let k = choose|k: int|
                    0 <= k < before.len() && front[#[trigger] before[k]].canonical->0.text == key;
                assert(places[k] == before[k]);
            }
        }
        places
    }
}

/// How many files are listed at most.
pub open spec fn most(max_results: Option<usize>) -> usize {
    match max_results {
        Some(n) if n <= 5000 => n,
        Some(_) => 5000,
        None => 1500,
    }
}

proof fn lemma_some_left(
    list: Seq<Seq<char>>,
    platform: Platform,
    replies: Seq<FsReplyView>,
)
    ensures
        text::inked(list).len() > 0 ==> (attachments::normalized(
            list,
            platform,
            replies,
            0,
        ) matches Ok(left) ==> left.len() > 0),
{
    let given = text::inked(list);
    if given.len() > 0 && attachments::normalized(list, platform, replies, 0) is Ok {
        let canonical = replies[0]->Canonical_0;
        let keys = attachments::path_keys(given, canonical, platform);
        let places = laws::first_paths_stay(given, canonical, platform);
        assert(laws::is_represented(keys, places, 0));
    }
}

/// Each listed file was met by the walk and is known to be a file, and its path
/// without links lies in one of the directories, whichever it is. No file is
/// listed twice. While there is room for more, each file that was met and lies in
/// one of the directories is listed, by the first path by which it was met; where
/// there is no more room, those that were met first are. The listed paths ascend
/// without regard to letter case. `places` gives the place of each listed file in
/// the walk.
pub proof fn files_in_any_directory_are_mentioned(
    roots: Seq<Seq<char>>,
    max_results: Option<usize>,
    platform: Platform,
    replies: Seq<FsReplyView>,
    r: FsStep<Vec<String>>,
) -> (places: Seq<int>)
    requires
        r@ == mentions::mentions_step(roots, max_results, platform, replies),
        r matches FsStep::Done(Ok(_)),
        text::inked(roots).len() > 0,
        replies.len() > 1,
        replies[1] is Walked,
    ensures
        ({
            let files = r->Done_0->Ok_0@;
            let found = replies[1]->Walked_roots;
            let entries = replies[1]->Walked_entries;
            &&& files.len() <= most(max_results)
            &&& places.len() == files.len()
            &&& places.no_duplicates()
            &&& forall|k: int|
                0 <= k < files.len() ==> 0 <= #[trigger] places[k] < entries.len() && files[k]@
                    == entries[places[k]].path && fits(entries[places[k]], found)
            &&& forall|k: int, m: int|
                #![trigger places[k], places[m]]
                0 <= k < files.len() && 0 <= m < files.len() && k != m
                    ==> entries[places[k]].canonical->0.text != entries[places[m]].canonical->0.text
            &&& files.len() < most(max_results) ==> forall|i: int|
                0 <= i < entries.len() && fits(#[trigger] entries[i], found) ==> is_taken(
                    entries,
                    places,
                    i,
                )
            &&& forall|i: int, k: int|
                #![trigger entries[i], places[k]]
                0 <= i < entries.len() && fits(entries[i], found) && 0 <= k < files.len() && i
                    < places[k] ==> is_taken(entries, places, i)
            &&& forall|i: int, j: int|
                #![trigger files[i], files[j]]
                0 <= i < j < files.len() ==> !order::text_before(
                    encoding::lowercased(files[j]@),
                    encoding::lowercased(files[i]@),
                )
        }),
{
    let files = r->Done_0->Ok_0@;
    let found = replies[1]->Walked_roots;
    let entries = replies[1]->Walked_entries;
    let limit = mentions::limit_of(max_results);
    lemma_some_left(roots, platform, replies);
    assert(limit == most(max_results));
    let taken = mentions::scanned(
        mentions::fresh_scan(mentions::resolved(found), limit),
        entries,
    ).files;
    let known = lemma_taken(found, limit, entries);
    let order = laws::mentions_are_sorted(taken);
    let shown = r->Done_0->Ok_0.deep_view();
    assert(shown == mentions::sorted_mentions(taken));
    let places = Seq::new(files.len(), |k: int| known[order[k] as int]);
    assert(shown.len() == files.len());
    assert forall|k: int| 0 <= k < files.len() implies 0 <= #[trigger] places[k] < entries.len()
        && files[k]@ == entries[places[k]].path && fits(entries[places[k]], found) by {
        assert(order[k] < taken.len());
        assert(shown[k] == files[k]@);
        assert(shown[k] == taken[order[k] as int]);
        assert(0 <= known[order[k] as int] < entries.len());
    }
    assert forall|k: int, m: int|
        #![trigger places[k], places[m]]
        0 <= k < files.len() && 0 <= m < files.len() && k != m implies places[k] != places[m]
        && entries[places[k]].canonical->0.text != entries[places[m]].canonical->0.text by {
        assert(order[k] != order[m]);
        let (a, b) = (order[k] as int, order[m] as int);
        assert(order[k] < taken.len() && order[m] < taken.len());
        if a < b {
            assert(known[a] < known[b]);
        } else {
            assert(known[b] < known[a]);
        }
    }
    assert forall|i: int| 0 <= i < entries.len() && is_taken(entries, known, i) implies is_taken(
        entries,
        places,
        i,
    ) by {
        let k = choose|k: int|
            0 <= k < known.len() && #[trigger] known[k] <= i && entries[known[k]].canonical->0.text
                == entries[i].canonical->0.text;
        assert(order.contains(k as usize));
        let m = choose|m: int| 0 <= m < order.len() && order[m] == k as usize;
        assert(places[m] == known[k]);
    }
    assert forall|i: int, k: int|
        #![trigger entries[i], places[k]]
        0 <= i < entries.len() && fits(entries[i], found) && 0 <= k < files.len() && i
            < places[k] implies is_taken(entries, places, i) by {
        let a = order[k] as int;
        assert(order[k] < taken.len());
        if a < known.len() - 1 {
            assert(known[a] < known[known.len() - 1]);
        }
        assert(is_taken(entries, known, i));
    }
    assert forall|i: int, j: int|
        #![trigger files[i], files[j]]
        0 <= i < j < files.len() implies !order::text_before(
        encoding::lowercased(files[j]@),
        encoding::lowercased(files[i]@),
    ) by {
        assert(shown[i] == files[i]@ && shown[j] == files[j]@);
    }
    places
}

/// The same directories, in another order or some of them more than once, give the
/// same files for the same walk.
pub proof fn the_order_of_directories_does_not_matter(
    roots: Seq<Seq<char>>,
    max_results: Option<usize>,
    platform: Platform,
    canonical: FsReplyView,
    found: Seq<Option<Seq<Seq<u8>>>>,
    others: Seq<Option<Seq<Seq<u8>>>>,
    entries: Seq<WalkEntryView>,
)
    requires
        forall|root: Option<Seq<Seq<u8>>>| #[trigger]
            found.contains(root) <==> others.contains(root),
    ensures
        mentions::mentions_step(
            roots,
            max_results,
            platform,
            seq![canonical, FsReplyView::Walked { roots: found, entries }],
        ) == mentions::mentions_step(
            roots,
            max_results,
            platform,
            seq![canonical, FsReplyView::Walked { roots: others, entries }],
        ),
{
    lemma_same_scan(found, others, mentions::limit_of(max_results), entries);
    let one = seq![canonical, FsReplyView::Walked { roots: found, entries }];
    let two = seq![canonical, FsReplyView::Walked { roots: others, entries }];
    assert(one[0] == two[0]);
}

proof fn lemma_same_scan(
    found: Seq<Option<Seq<Seq<u8>>>>,
    others: Seq<Option<Seq<Seq<u8>>>>,
    limit: usize,
    entries: Seq<WalkEntryView>,
)
    requires
        forall|root: Option<Seq<Seq<u8>>>| #[trigger]
            found.contains(root) <==> others.contains(root),
    ensures
        ({
            let a = mentions::scanned(
                mentions::fresh_scan(mentions::resolved(found), limit),
                entries,
            );
            let b = mentions::scanned(
                mentions::fresh_scan(mentions::resolved(others), limit),
                entries,
            );
            &&& a.files == b.files && a.seen == b.seen && a.limit == b.limit
            &&& a.roots == mentions::resolved(found) && b.roots == mentions::resolved(others)
        }),
    decreases entries.len(),
{
    if entries.len() > 0 {
        lemma_same_scan(found, others, limit, entries.drop_last());
        let entry = entries.last();
        lemma_candidate(entry, found);
        lemma_candidate(entry, others);
        if let Some(path) = entry.canonical {
            if lies_in_some(path.parts, found) {
                let i = choose|i: int|
                    0 <= i < found.len() && lies_in(path.parts, #[trigger] found[i]);
                assert(found.contains(found[i]));
                let j = choose|j: int| 0 <= j < others.len() && others[j] == found[i];
                assert(lies_in(path.parts, others[j]));
            }
            if lies_in_some(path.parts, others) {
                let i = choose|i: int|
                    0 <= i < others.len() && lies_in(path.parts, #[trigger] others[i]);
                assert(others.contains(others[i]));
                assert(found.contains(others[i]));
                let j = choose|j: int| 0 <= j < found.len() && found[j] == others[i];
                assert(lies_in(path.parts, found[j]));
            }
        }
    }
}

/// To find files, the given directories are resolved, and then walked in one walk,
/// eight levels deep, which follows no links and leaves out what is hidden or
/// ignored. Each directory is walked once: by the first of the given texts that
/// lead to it. Where only blank texts are given, nothing is asked and there are no
/// files.
pub proof fn directories_are_walked_once(
    roots: Seq<Seq<char>>,
    max_results: Option<usize>,
    platform: Platform,
    replies: Seq<FsReplyView>,
    r: FsStep<Vec<String>>,
)
    requires
        r@ == mentions::mentions_step(roots, max_results, platform, replies),
    ensures
        ({
            let given = text::inked(roots);
            &&& given.len() == 0 ==> (r matches FsStep::Done(Ok(files)) && files@.len() == 0)
            &&& given.len() > 0 && replies.len() == 0 ==> (r matches FsStep::Do(
                FsAction::Canonicalize { paths },
            ) && paths.deep_view() == given)
            &&& given.len() > 0 && replies.len() == 1 ==> (
            replies[0] matches FsReplyView::Canonical(canonical) ==> (canonical.len() == given.len() ==> (r matches FsStep::Do(
                FsAction::Walk {
                    roots: walked,
                    limit,
                    max_depth,
                    follow_links,
                    hidden,
                    git_ignore,
                    git_global,
                    git_exclude,
                },
            ) && limit == most(max_results) && max_depth == 8 && !follow_links && hidden
                && git_ignore && git_global && git_exclude && walks_each_once(
                walked.deep_view(),
                given,
                canonical,
            ))))
        }),
{
    let given = text::inked(roots);
    lemma_some_left(roots, platform, replies);
    if given.len() == 0 {
        let files = r->Done_0->Ok_0;
        assert(files.deep_view().len() == files@.len());
    }
    if given.len() > 0 && replies.len() == 1 {
        if let FsReplyView::Canonical(canonical) = replies[0] {
            if canonical.len() == given.len() {
                lemma_walks(given, canonical, platform);
            }
        }
    }
}

/// Each of some directories that lead somewhere is among those that are walked, by
/// the first text that leads there, and those that are walked were given.
pub open spec fn walks_each_once(
    walked: Seq<Seq<char>>,
    given: Seq<Seq<char>>,
    canonical: Seq<Option<Seq<char>>>,
) -> bool {
    &&& forall|k: int| 0 <= k < walked.len() ==> given.contains(#[trigger] walked[k])
    &&& forall|i: int|
        0 <= i < given.len() && canonical[i] is Some && (forall|j: int|
            0 <= j < i ==> #[trigger] canonical[j] != canonical[i]) ==> walked.contains(
            #[trigger] given[i],
        )
    &&& (forall|i: int, j: int|
        0 <= i < j < given.len() ==> #[trigger] canonical[i] is Some && canonical[i]
            == #[trigger] canonical[j]) ==> walked.len() <= 1
}

proof fn lemma_walks(
    given: Seq<Seq<char>>,
    canonical: Seq<Option<Seq<char>>>,
    platform: Platform,
)
    requires
        canonical.len() == given.len(),
    ensures
        walks_each_once(
            attachments::distinct_paths(given, canonical, platform),
            given,
            canonical,
        ),
{
    let walked = attachments::distinct_paths(given, canonical, platform);
    let keys = attachments::path_keys(given, canonical, platform);
    let places = laws::first_paths_stay(given, canonical, platform);
    assert forall|k: int| 0 <= k < walked.len() implies given.contains(#[trigger] walked[k]) by {
        assert(walked[k] == given[places[k]]);
    }
    assert forall|i: int|
        0 <= i < given.len() && canonical[i] is Some && (forall|j: int|
            0 <= j < i ==> #[trigger] canonical[j] != canonical[i]) implies walked.contains(
        #[trigger] given[i],
    ) by {
        assert(laws::is_represented(keys, places, i));
        let k = choose|k: int|
            0 <= k < places.len() && laws::stands_for(keys, #[trigger] places[k], i);
        let j = places[k];
        assert(canonical[j] == canonical[i]);
        assert(j == i);
        assert(walked[k] == given[i]);
    }
    if (forall|i: int, j: int|
        0 <= i < j < given.len() ==> #[trigger] canonical[i] is Some && canonical[i]
            == #[trigger] canonical[j]) && walked.len() > 1 {
        let (i, j) = (places[0], places[1]);
        assert(i < j);
        assert(canonical[i] is Some && canonical[i] == canonical[j]);
        assert(keys[i] == keys[j]);
    }
}

} // verus!
