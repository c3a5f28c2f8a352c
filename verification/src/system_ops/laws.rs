//! What holds of the operations on files as a whole.

use crate::encoding;
use crate::order;
use crate::paths;
use crate::platform::Platform;
use crate::system_ops::attachments;
use crate::system_ops::directory;
use crate::system_ops::exchange::{
    ChildView, FsActionView, FsReplyView, FsStepView, ProbeView, WalkEntryView,
};
use crate::system_ops::mentions;
use crate::system_ops::mentions::ScanView;
use crate::system_ops::types::{AttachmentView, EntryView};
use crate::text;
use vstd::prelude::*;

verus! {

/// Places in ascending order, each before `n`.
pub open spec fn ascending(places: Seq<int>, n: int) -> bool {
    &&& forall|k: int| 0 <= k < places.len() ==> 0 <= #[trigger] places[k] < n
    &&& forall|k: int, m: int|
        #![trigger places[k], places[m]]
        0 <= k < m < places.len() ==> places[k] < places[m]
}

/// Places stay in ascending order with one more behind them.
pub proof fn lemma_ascending_push(places: Seq<int>, n: int)
    requires
        n >= 0,
        ascending(places, n),
    ensures
        ascending(places.push(n), n + 1),
        ascending(places, n + 1),
{
}

proof fn lemma_entries(children: Seq<Option<ChildView>>) -> (places: Seq<int>)
    ensures
        ascending(places, children.len() as int),
        places.len() == directory::entries(children).len(),
        forall|k: int|
            0 <= k < places.len() ==> directory::shown(children[#[trigger] places[k]]) == Some(
                directory::entries(children)[k],
            ),
        forall|i: int|
            0 <= i < children.len() && directory::shown(#[trigger] children[i]) is Some
                ==> places.contains(i),
    decreases children.len(),
{
    if children.len() == 0 {
        seq![]
    } else {
        let n = children.len() - 1;
        let front = children.drop_last();
        let before = lemma_entries(front);
        lemma_ascending_push(before, n);
        assert forall|k: int| 0 <= k < before.len() implies front[#[trigger] before[k]]
            == children[before[k]] by {}
        if directory::shown(children[n]) is Some {
            let places = before.push(n);
            assert forall|i: int|
                0 <= i < children.len() && directory::shown(#[trigger] children[i]) is Some implies
                places.contains(i) by {
                if i < n {
                    assert(front[i] == children[i]);
                    let k = choose|k: int| 0 <= k < before.len() && before[k] == i;
                    assert(places[k] == i);
                } else {
                    assert(places[before.len() as int] == i);
                }
            }
            assert forall|k: int| 0 <= k < places.len() implies directory::shown(
                children[#[trigger] places[k]],
            ) == Some(directory::entries(children)[k]) by {
                if k < before.len() {
                    assert(places[k] == before[k]);
                    assert(front[before[k]] == children[before[k]]);
                }
            }
            places
        } else {
            assert forall|i: int|
                0 <= i < children.len() && directory::shown(#[trigger] children[i]) is Some implies
                before.contains(i) by {
                assert(front[i] == children[i]);
            }
            before
        }
    }
}

/// The entry `a` may stand before the entry `b` in a listing: directories come
/// first, then names ascend without regard to letter case, then by themselves.
pub open spec fn listed_before(a: EntryView, b: EntryView) -> bool {
    let dir_a = a.kind == "directory"@;
    let dir_b = b.kind == "directory"@;
    let low_a = encoding::lowercased(a.name);
    let low_b = encoding::lowercased(b.name);
    ||| dir_a && !dir_b
    ||| dir_a == dir_b && order::text_before(low_a, low_b)
    ||| dir_a == dir_b && low_a == low_b && !order::text_before(b.name, a.name)
}

/// A listing is in order, shows each child once that could be read and told and
/// is not the directory of git, and shows nothing else. `places` gives the place
/// of each entry among the children.
pub proof fn listings_are_sorted_and_complete(children: Seq<Option<ChildView>>) -> (places: Seq<
    int,
>)
    requires
        children.len() <= usize::MAX,
    ensures
        ({
            let list = directory::listing(children);
            &&& places.len() == list.len()
            &&& places.no_duplicates()
            &&& forall|k: int|
                0 <= k < list.len() ==> {
                    &&& 0 <= #[trigger] places[k] < children.len()
                    &&& children[places[k]] matches Some(child) && list[k].name == child.name
                        && list[k].path == child.path && list[k].name != ".git"@ && child.is_dir
                        is Some && (list[k].kind == "directory"@ <==> child.is_dir == Some(true))
                        && (list[k].kind == "file"@ <==> child.is_dir == Some(false))
                }
            &&& forall|i: int|
                0 <= i < children.len() && directory::shown(#[trigger] children[i]) is Some
                    ==> places.contains(i)
            &&& forall|i: int, j: int|
                #![trigger list[i], list[j]]
                0 <= i < j < list.len() ==> listed_before(list[i], list[j])
        }),
{
    reveal_strlit("directory");
    reveal_strlit("file");
    assert("directory"@.len() != "file"@.len());
    let known = lemma_entries(children);
    let unsorted = directory::entries(children);
    let keys = directory::entry_keys(unsorted);
    lemma_ascending_fits(known, children.len() as int);
    let order = order::sorting_keeps_every_item(keys, unsorted);
    let list = directory::listing(children);
    let places = Seq::new(list.len(), |k: int| known[order[k] as int]);
    assert forall|k: int| 0 <= k < list.len() implies 0 <= #[trigger] places[k] < children.len()
        && directory::shown(children[places[k]]) == Some(list[k]) by {
        assert(0 <= order[k] < keys.len());
        assert(list[k] == unsorted[order[k] as int]);
        assert(directory::shown(children[known[order[k] as int]]) is Some);
    }
    assert forall|k: int, m: int| 0 <= k < places.len() && 0 <= m < places.len() && k != m implies
        places[k] != places[m] by {
        assert(0 <= order[k] < keys.len() && 0 <= order[m] < keys.len());
        assert(order[k] != order[m]);
        if order[k] < order[m] {
            assert(known[order[k] as int] < known[order[m] as int]);
        } else {
            assert(known[order[m] as int] < known[order[k] as int]);
        }
    }
    assert forall|i: int|
        0 <= i < children.len() && directory::shown(#[trigger] children[i]) is Some implies
        places.contains(i) by {
        let k = choose|k: int| 0 <= k < known.len() && known[k] == i;
        assert(order.contains(k as usize));
        let m = choose|m: int| 0 <= m < order.len() && order[m] == k as usize;
        assert(places[m] == i);
    }
    assert forall|i: int, j: int|
        #![trigger list[i], list[j]]
        0 <= i < j < list.len() implies listed_before(list[i], list[j]) by {
        let a = order[i] as int;
        let b = order[j] as int;
        assert(order::goes_before(keys, a, b));
        assert(0 <= order[i] < keys.len() && 0 <= order[j] < keys.len());
        assert(keys[a] == directory::entry_key(list[i]));
        assert(keys[b] == directory::entry_key(list[j]));
        order::text_order_is_irreflexive(list[i].name);
        if order::text_before(list[i].name, list[j].name) && order::text_before(
            list[j].name,
            list[i].name,
        ) {
            order::text_order_is_transitive(list[i].name, list[j].name, list[i].name);
        }
    }
    places
}

proof fn lemma_ascending_fits(places: Seq<int>, n: int)
    requires
        n >= 0,
        ascending(places, n),
    ensures
        places.len() <= n,
    decreases places.len(),
{
    if places.len() > 0 {
        let last = places[places.len() - 1];
        let front = places.drop_last();
        assert forall|k: int| 0 <= k < front.len() implies 0 <= #[trigger] front[k] < last by {
            assert(front[k] == places[k]);
        }
        assert forall|k: int, m: int|
            #![trigger front[k], front[m]]
            0 <= k < m < front.len() implies front[k] < front[m] by {
            assert(front[k] == places[k] && front[m] == places[m]);
        }
        lemma_ascending_fits(front, last);
    }
}

/// The path at `j` stands for the one at `i`: it has the same text, does not
/// stand behind it, and leads to something if that one does.
pub open spec fn stands_for(keys: Seq<(bool, Seq<char>)>, j: int, i: int) -> bool {
    j <= i && keys[j].1 == keys[i].1 && (keys[i].0 ==> keys[j].0)
}

/// One of the paths at `places` stands for the one at `i`.
pub open spec fn is_represented(keys: Seq<(bool, Seq<char>)>, places: Seq<int>, i: int) -> bool {
    exists|k: int| 0 <= k < places.len() && stands_for(keys, #[trigger] places[k], i)
}

/// No path before `i` stands for the one at `i`.
pub open spec fn is_first(keys: Seq<(bool, Seq<char>)>, i: int) -> bool {
    forall|j: int| 0 <= j < i ==> !#[trigger] stands_for(keys, j, i)
}

proof fn lemma_is_repeated(keys: Seq<(bool, Seq<char>)>, i: int)
    requires
        0 <= i < keys.len(),
    ensures
        attachments::is_repeated(keys, i) == !is_first(keys, i),
{
    let (leads, text) = keys[i];
    let met = keys.take(i);
    if attachments::is_repeated(keys, i) {
        let j = if met.contains((true, text)) {
            choose|j: int| 0 <= j < met.len() && met[j] == (true, text)
        } else {
            choose|j: int| 0 <= j < met.len() && met[j] == (false, text)
        };
        assert(met[j] == keys[j]);
        assert(stands_for(keys, j, i));
    }
    if !is_first(keys, i) {
        let j = choose|j: int| 0 <= j < i && #[trigger] stands_for(keys, j, i);
        assert(met[j] == keys[j]);
        assert(keys[j] == (true, text) || keys[j] == (false, text));
    }
}

proof fn lemma_first_of_each(
    list: Seq<Seq<char>>,
    keys: Seq<(bool, Seq<char>)>,
    n: int,
) -> (places: Seq<int>)
    requires
        0 <= n <= list.len(),
        keys.len() == list.len(),
    ensures
        ascending(places, n),
        places.len() == attachments::first_of_each(list, keys, n).len(),
        forall|k: int|
            0 <= k < places.len() ==> attachments::first_of_each(list, keys, n)[k]
                == list[#[trigger] places[k]] && is_first(keys, places[k]),
        forall|i: int| 0 <= i < n ==> #[trigger] is_represented(keys, places, i),
    decreases n,
{
    if n == 0 {
        seq![]
    } else {
        let before = lemma_first_of_each(list, keys, n - 1);
        lemma_ascending_push(before, n - 1);
        lemma_is_repeated(keys, n - 1);
        if attachments::is_repeated(keys, n - 1) {
            let j = choose|j: int| 0 <= j < n - 1 && #[trigger] stands_for(keys, j, n - 1);
            assert(is_represented(keys, before, j));
            let k = choose|k: int|
                0 <= k < before.len() && stands_for(keys, #[trigger] before[k], j);
            assert(stands_for(keys, before[k], n - 1));
            assert(is_represented(keys, before, n - 1));
            before
        } else {
            let places = before.push(n - 1);
            let all = attachments::first_of_each(list, keys, n);
            assert forall|k: int| 0 <= k < places.len() implies all[k] == list[#[trigger] places[k]]
                && is_first(keys, places[k]) by {
                if k < before.len() {
                    assert(places[k] == before[k]);
                }
            }
            assert forall|i: int| 0 <= i < n implies #[trigger] is_represented(
                keys,
                places,
                i,
            ) by {
                if i == n - 1 {
                    assert(places[before.len() as int] == i);
                    assert(stands_for(keys, i, i));
                } else {
                    assert(is_represented(keys, before, i));
                    let k = choose|k: int|
                        0 <= k < before.len() && stands_for(keys, #[trigger] before[k], i);
                    assert(places[k] == before[k]);
                }
            }
            places
        }
    }
}

/// Of paths that are the same the first stays and the others go; those that stay
/// keep their order. Two that stay have different texts, but where the first
/// leads nowhere and the second to something. `places` gives the place of each
/// path that stays.
pub proof fn first_paths_stay(
    list: Seq<Seq<char>>,
    canonical: Seq<Option<Seq<char>>>,
    platform: Platform,
) -> (places: Seq<int>)
    ensures
        ({
            let keys = attachments::path_keys(list, canonical, platform);
            let left = attachments::distinct_paths(list, canonical, platform);
            &&& ascending(places, list.len() as int)
            &&& places.len() == left.len()
            &&& forall|k: int|
                0 <= k < places.len() ==> left[k] == list[#[trigger] places[k]] && is_first(
                    keys,
                    places[k],
                )
            &&& forall|i: int| 0 <= i < list.len() ==> #[trigger] is_represented(keys, places, i)
            &&& forall|k: int, m: int|
                #![trigger places[k], places[m]]
                0 <= k < m < places.len() ==> keys[places[k]].1 != keys[places[m]].1 || (
                !keys[places[k]].0 && keys[places[m]].0)
        }),
{
    let keys = attachments::path_keys(list, canonical, platform);
    let places = lemma_first_of_each(list, keys, list.len() as int);
    assert forall|k: int, m: int|
        #![trigger places[k], places[m]]
        0 <= k < m < places.len() implies keys[places[k]].1 != keys[places[m]].1 || (
    !keys[places[k]].0 && keys[places[m]].0) by {
        assert(!stands_for(keys, places[k], places[m]));
    }
    places
}

proof fn lemma_all_first(list: Seq<Seq<char>>, keys: Seq<(bool, Seq<char>)>, n: int)
    requires
        0 <= n <= list.len(),
        keys.len() == list.len(),
        forall|i: int| 0 <= i < list.len() ==> #[trigger] is_first(keys, i),
    ensures
        attachments::first_of_each(list, keys, n) == list.take(n),
    decreases n,
{
    if n > 0 {
        lemma_all_first(list, keys, n - 1);
        lemma_is_repeated(keys, n - 1);
        assert(is_first(keys, n - 1));
        assert(list.take(n) =~= list.take(n - 1).push(list[n - 1]));
    } else {
        assert(list.take(0) =~= seq![]);
    }
}

/// What is left of a list of paths stays as it is when it is gone through again,
/// as long as each path leads to where it led.
pub proof fn normalizing_again_changes_nothing(
    list: Seq<Seq<char>>,
    platform: Platform,
    resolve: spec_fn(Seq<char>) -> Option<Seq<char>>,
)
    ensures
        ({
            let given = text::inked(list);
            let canonical = given.map_values(resolve);
            let left = attachments::distinct_paths(given, canonical, platform);
            let again = left.map_values(resolve);
            &&& text::inked(left) == left
            &&& attachments::distinct_paths(left, again, platform) == left
            &&& attachments::normalize_step(list, platform, seq![FsReplyView::Canonical(canonical)])
                == FsStepView::Done(Ok(left))
            &&& attachments::normalize_step(left, platform, seq![FsReplyView::Canonical(again)])
                == FsStepView::Done(Ok(left))
        }),
{
    let given = text::inked(list);
    let canonical = given.map_values(resolve);
    let keys = attachments::path_keys(given, canonical, platform);
    let left = attachments::distinct_paths(given, canonical, platform);
    let again = left.map_values(resolve);
    let less = attachments::path_keys(left, again, platform);
    let places = first_paths_stay(given, canonical, platform);
    lemma_inked(list);
    assert forall|k: int| 0 <= k < left.len() implies (#[trigger] left[k]).len() > 0
        && text::trimmed(left[k]) == left[k] && less[k] == keys[places[k]] by {
        assert(left[k] == given[places[k]]);
    }
    lemma_inked_stays(left);
    assert forall|m: int| 0 <= m < left.len() implies #[trigger] is_first(less, m) by {
        assert forall|k: int| 0 <= k < m implies !#[trigger] stands_for(less, k, m) by {
            assert(left[k] == given[places[k]] && left[m] == given[places[m]]);
            assert(places[k] < places[m]);
            assert(!stands_for(keys, places[k], places[m]));
        }
    }
    lemma_all_first(left, less, left.len() as int);
    assert(left.take(left.len() as int) =~= left);
    if given.len() == 0 {
        assert(left =~= seq![]);
    }
}

/// On a platform that takes both letter cases for one, paths that lead nowhere
/// and differ in nothing else are the same; on others they differ.
pub proof fn letter_case_matters_on_unix_alone(a: Seq<char>, b: Seq<char>)
    ensures
        attachments::path_key(None, a, Platform::Unix) == attachments::path_key(
            None,
            b,
            Platform::Unix,
        ) <==> a == b,
        attachments::path_key(None, a, Platform::MacOs) == attachments::path_key(
            None,
            b,
            Platform::MacOs,
        ) <==> encoding::lowercased(a) == encoding::lowercased(b),
        attachments::path_key(None, a, Platform::Windows) == attachments::path_key(
            None,
            b,
            Platform::Windows,
        ) <==> encoding::lowercased(a) == encoding::lowercased(b),
{
}

/// Attached paths that lead to nothing are left out, and no others; the rest keep
/// their order. `places` gives the place of each path that is not left out.
pub proof fn missing_attachments_are_skipped(
    list: Seq<Seq<char>>,
    probes: Seq<ProbeView>,
    n: int,
    platform: Platform,
) -> (
places: Seq<int>)
    requires
        0 <= n <= list.len(),
        probes.len() == list.len(),
    ensures
        ({
            let left = attachments::attachments(list, probes, n, platform);
            &&& ascending(places, n)
            &&& places.len() == left.len()
            &&& forall|k: int|
                0 <= k < places.len() ==> probes[#[trigger] places[k]] is Found && left[k]
                    == attachments::attachment(
                    list[places[k]],
                    probes[places[k]]->Found_0,
                    attachments::media_type(list[places[k]], platform),
                    platform,
                )
            &&& forall|i: int|
                0 <= i < n && (#[trigger] probes[i]) is Found ==> places.contains(i)
        }),
    decreases n,
{
    if n == 0 {
        seq![]
    } else {
        let before = missing_attachments_are_skipped(list, probes, n - 1, platform);
        lemma_ascending_push(before, n - 1);
        if probes[n - 1] is Found {
            let places = before.push(n - 1);
            let left = attachments::attachments(list, probes, n, platform);
            assert forall|k: int| 0 <= k < places.len() implies probes[#[trigger] places[k]]
                is Found && left[k] == attachments::attachment(
                list[places[k]],
                probes[places[k]]->Found_0,
                attachments::media_type(list[places[k]], platform),
                platform,
            ) by {
                if k < before.len() {
                    assert(places[k] == before[k]);
                }
            }
            assert forall|i: int| 0 <= i < n && (#[trigger] probes[i])
                is Found implies places.contains(i) by {
                if i < n - 1 {
                    let k = choose|k: int| 0 <= k < before.len() && before[k] == i;
                    assert(places[k] == i);
                } else {
                    assert(places[before.len() as int] == i);
                }
            }
            places
        } else {
            before
        }
    }
}

/// A host that says the same of a path whenever it is asked: it resolves just
/// those paths at which it finds something.
pub open spec fn steady(
    resolve: spec_fn(Seq<char>) -> Option<Seq<char>>,
    probe: spec_fn(Seq<char>) -> ProbeView,
) -> bool {
    forall|path: Seq<char>| (#[trigger] resolve(path) is Some) == (probe(path) is Found)
}

/// The replies of a host to the actions that looking at attached paths takes.
pub open spec fn attachment_replies(
    list: Seq<Seq<char>>,
    platform: Platform,
    resolve: spec_fn(Seq<char>) -> Option<Seq<char>>,
    probe: spec_fn(Seq<char>) -> ProbeView,
) -> Seq<FsReplyView> {
    let given = text::inked(list);
    let canonical = given.map_values(resolve);
    let left = attachments::distinct_paths(given, canonical, platform);
    seq![FsReplyView::Canonical(canonical), FsReplyView::Probed(left.map_values(probe))]
}

/// One of the first `n` paths leads to where the path at `n` leads.
pub open spec fn is_met(
    given: Seq<Seq<char>>,
    resolve: spec_fn(Seq<char>) -> Option<Seq<char>>,
    n: int,
) -> bool {
    exists|i: int| 0 <= i < n && resolve(#[trigger] given[i]) == resolve(given[n])
}

/// The paths among the first `n` that lead to something to which none before
/// them leads.
pub open spec fn existing_once(
    given: Seq<Seq<char>>,
    resolve: spec_fn(Seq<char>) -> Option<Seq<char>>,
    n: int,
) -> Seq<Seq<char>>
    decreases n,
{
    if n <= 0 {
        seq![]
    } else if resolve(given[n - 1]) is Some && !is_met(given, resolve, n - 1) {
        existing_once(given, resolve, n - 1).push(given[n - 1])
    } else {
        existing_once(given, resolve, n - 1)
    }
}

/// The attached paths without blank ones, those that lead nowhere and those that
/// lead to the same file as one before.
pub open spec fn valid_attachments(
    list: Seq<Seq<char>>,
    resolve: spec_fn(Seq<char>) -> Option<Seq<char>>,
) -> Seq<Seq<char>> {
    let given = text::inked(list);
    existing_once(given, resolve, given.len() as int)
}

proof fn lemma_attachments_front(
    list: Seq<Seq<char>>,
    probes: Seq<ProbeView>,
    path: Seq<char>,
    probe: ProbeView,
    n: int,
    platform: Platform,
)
    requires
        n <= list.len(),
        n <= probes.len(),
    ensures
        attachments::attachments(list.push(path), probes.push(probe), n, platform)
            == attachments::attachments(list, probes, n, platform),
    decreases n,
{
    if n > 0 {
        lemma_attachments_front(list, probes, path, probe, n - 1, platform);
    }
}

/// `infos` is what looking at each of `paths` gives.
pub open spec fn tells(
    infos: Seq<AttachmentView>,
    paths: Seq<Seq<char>>,
    probe: spec_fn(Seq<char>) -> ProbeView,
    platform: Platform,
) -> bool {
    &&& infos.len() == paths.len()
    &&& forall|k: int|
        0 <= k < paths.len() ==> attachments::inspected(
            #[trigger] paths[k],
            probe(paths[k]),
            platform,
        ) == Ok::<AttachmentView, Seq<char>>(infos[k])
}

proof fn lemma_tells(
    given: Seq<Seq<char>>,
    platform: Platform,
    resolve: spec_fn(Seq<char>) -> Option<Seq<char>>,
    probe: spec_fn(Seq<char>) -> ProbeView,
    n: int,
)
    requires
        steady(resolve, probe),
        0 <= n <= given.len(),
    ensures
        ({
            let keys = attachments::path_keys(given, given.map_values(resolve), platform);
            let left = attachments::first_of_each(given, keys, n);
            tells(
                attachments::attachments(
                    left,
                    left.map_values(probe),
                    left.len() as int,
                    platform,
                ),
                existing_once(given, resolve, n),
                probe,
                platform,
            )
        }),
    decreases n,
{
    if n > 0 {
        lemma_tells(given, platform, resolve, probe, n - 1);
        let keys = attachments::path_keys(given, given.map_values(resolve), platform);
        let path = given[n - 1];
        let met = keys.take(n - 1);
        let before = attachments::first_of_each(given, keys, n - 1);
        if is_met(given, resolve, n - 1) && resolve(path) is Some {
            let i = choose|i: int|
                0 <= i < n - 1 && resolve(#[trigger] given[i]) == resolve(given[n - 1]);
            assert(met[i] == keys[n - 1]);
        }
        if attachments::is_repeated(keys, n - 1) {
            if resolve(path) is Some {
                let i = choose|i: int| 0 <= i < met.len() && met[i] == keys[n - 1];
                assert(keys[i] == keys[n - 1]);
                assert(resolve(given[i]) == resolve(path));
            }
        } else {
            let left = before.push(path);
            assert(left.map_values(probe) =~= before.map_values(probe).push(probe(path)));
            lemma_attachments_front(
                before,
                before.map_values(probe),
                path,
                probe(path),
                before.len() as int,
                platform,
            );
            assert(resolve(path) is Some == probe(path) is Found);
        }
    }
}

/// Attached paths come out one by one: for each path that leads to something to
/// which none before it leads there is one entry, in the order of the paths, and
/// it is what looking at that path alone gives. Blank paths, paths that lead
/// nowhere and repeated ones leave no entry, and take none away.
pub proof fn attachments_are_inspected_one_by_one(
    list: Seq<Seq<char>>,
    platform: Platform,
    resolve: spec_fn(Seq<char>) -> Option<Seq<char>>,
    probe: spec_fn(Seq<char>) -> ProbeView,
)
    requires
        steady(resolve, probe),
    ensures
        attachments::inspect_step(
            list,
            platform,
            attachment_replies(list, platform, resolve, probe),
        ) matches FsStepView::Done(Ok(infos)) && tells(
            infos,
            valid_attachments(list, resolve),
            probe,
            platform,
        ),
{
    let given = text::inked(list);
    lemma_tells(given, platform, resolve, probe, given.len() as int);
}

proof fn lemma_inked(list: Seq<Seq<char>>)
    ensures
        forall|i: int|
            0 <= i < text::inked(list).len() ==> (#[trigger] text::inked(list)[i]).len() > 0
                && text::trimmed(text::inked(list)[i]) == text::inked(list)[i],
    decreases list.len(),
{
    if list.len() > 0 {
        lemma_inked(list.drop_last());
        let _ = text::trimming_cuts_white_space(list.last());
        let before = text::inked(list.drop_last());
        let all = text::inked(list);
        assert forall|i: int| 0 <= i < all.len() implies (#[trigger] all[i]).len() > 0
            && text::trimmed(all[i]) == all[i] by {
            if i < before.len() {
                assert(all[i] == before[i]);
            }
        }
    }
}

proof fn lemma_inked_stays(list: Seq<Seq<char>>)
    requires
        forall|i: int|
            0 <= i < list.len() ==> (#[trigger] list[i]).len() > 0 && text::trimmed(list[i])
                == list[i],
    ensures
        text::inked(list) == list,
    decreases list.len(),
{
    if list.len() > 0 {
        lemma_inked_stays(list.drop_last());
        assert(list.last() == list[list.len() - 1]);
        assert(text::inked(list) =~= list);
    } else {
        assert(text::inked(list) =~= list);
    }
}

proof fn lemma_existing_once(
    given: Seq<Seq<char>>,
    resolve: spec_fn(Seq<char>) -> Option<Seq<char>>,
    n: int,
)
    requires
        0 <= n <= given.len(),
    ensures
        ({
            let paths = existing_once(given, resolve, n);
            &&& forall|k: int|
                0 <= k < paths.len() ==> resolve(#[trigger] paths[k]) is Some && given.take(
                    n,
                ).contains(paths[k])
            &&& forall|k: int, m: int|
                0 <= k < m < paths.len() ==> resolve(#[trigger] paths[k]) != resolve(
                    #[trigger] paths[m],
                )
        }),
    decreases n,
{
    if n > 0 {
        lemma_existing_once(given, resolve, n - 1);
        let before = existing_once(given, resolve, n - 1);
        let paths = existing_once(given, resolve, n);
        assert forall|path: Seq<char>| given.take(n - 1).contains(path) implies given.take(
            n,
        ).contains(path) && exists|i: int| 0 <= i < n - 1 && #[trigger] given[i] == path by {
            let front = given.take(n - 1);
            let i = choose|i: int| 0 <= i < front.len() && front[i] == path;
            assert(given.take(n)[i] == path);
            assert(given[i] == path);
        }
        assert forall|k: int| 0 <= k < paths.len() implies resolve(#[trigger] paths[k]) is Some
            && given.take(n).contains(paths[k]) by {
            if k < before.len() {
                assert(paths[k] == before[k]);
            } else {
                assert(given.take(n)[n - 1] == paths[k]);
            }
        }
        assert forall|k: int, m: int| 0 <= k < m < paths.len() implies resolve(
            #[trigger] paths[k],
        ) != resolve(#[trigger] paths[m]) by {
            assert(paths[k] == before[k]);
            if m < before.len() {
                assert(paths[m] == before[m]);
            } else {
                assert(given.take(n - 1).contains(paths[k]));
            }
        }
    }
}

proof fn lemma_existing_stay(
    given: Seq<Seq<char>>,
    resolve: spec_fn(Seq<char>) -> Option<Seq<char>>,
    n: int,
)
    requires
        0 <= n <= given.len(),
        forall|k: int| 0 <= k < given.len() ==> resolve(#[trigger] given[k]) is Some,
        forall|k: int, m: int|
            0 <= k < m < given.len() ==> resolve(#[trigger] given[k]) != resolve(
                #[trigger] given[m],
            ),
    ensures
        existing_once(given, resolve, n) == given.take(n),
    decreases n,
{
    if n > 0 {
        lemma_existing_stay(given, resolve, n - 1);
        assert(given[n - 1] == given[n - 1]);
        assert(given.take(n) =~= given.take(n - 1).push(given[n - 1]));
    } else {
        assert(given.take(0) =~= seq![]);
    }
}

/// Attached paths that are blank, lead nowhere or repeat one before can as well
/// be left away: the others alone give the same.
pub proof fn invalid_attachments_change_nothing(
    list: Seq<Seq<char>>,
    platform: Platform,
    resolve: spec_fn(Seq<char>) -> Option<Seq<char>>,
    probe: spec_fn(Seq<char>) -> ProbeView,
)
    requires
        steady(resolve, probe),
    ensures
        attachments::inspect_step(
            list,
            platform,
            attachment_replies(list, platform, resolve, probe),
        ) == attachments::inspect_step(
            valid_attachments(list, resolve),
            platform,
            attachment_replies(valid_attachments(list, resolve), platform, resolve, probe),
        ),
{
    let given = text::inked(list);
    let valid = valid_attachments(list, resolve);
    lemma_inked(list);
    lemma_existing_once(given, resolve, given.len() as int);
    assert forall|k: int| 0 <= k < valid.len() implies (#[trigger] valid[k]).len() > 0
        && text::trimmed(valid[k]) == valid[k] by {
        assert(given.take(given.len() as int) =~= given);
        assert(given.contains(valid[k]));
    }
    lemma_inked_stays(valid);
    lemma_existing_stay(valid, resolve, valid.len() as int);
    assert(valid.take(valid.len() as int) =~= valid);
    attachments_are_inspected_one_by_one(list, platform, resolve, probe);
    attachments_are_inspected_one_by_one(valid, platform, resolve, probe);
    let all = attachments::inspect_step(
        list,
        platform,
        attachment_replies(list, platform, resolve, probe),
    );
    let alone = attachments::inspect_step(
        valid,
        platform,
        attachment_replies(valid, platform, resolve, probe),
    );
    match (all, alone) {
        (FsStepView::Done(Ok(a)), FsStepView::Done(Ok(b))) => {
            assert forall|k: int| 0 <= k < valid.len() implies a[k] == b[k] by {
                assert(valid[k] == valid[k]);
            }
            assert(a =~= b);
        },
        _ => {},
    }
}

/// A file is read as an image only where it is known to be one and not to be too
/// large, and what is given back has the media type of an image and stands for
/// the bytes of the file.
pub proof fn images_are_typed_and_bounded(
    path: Seq<char>,
    platform: Platform,
    replies: Seq<FsReplyView>,
)
    ensures
        ({
            let step = attachments::read_image_step(path, platform, replies);
            (step matches FsStepView::Do(FsActionView::ReadBytes { .. }) || step
                matches FsStepView::Done(Ok(_))) ==> {
                &&& replies.len() > 1
                &&& replies[1] matches FsReplyView::Stat(stat) && stat.len
                    <= attachments::MAX_IMAGE_ATTACHMENT_BYTES
                &&& attachments::media_type(path, platform) matches Some(mime) && text::begins(
                    mime,
                    "image/"@,
                )
            }
        }),
        attachments::read_image_step(path, platform, replies) matches FsStepView::Done(Ok(image))
            ==> attachments::media_type(path, platform) == Some(image.mime_type) && replies.len()
            > 2 && (replies[2] matches FsReplyView::Bytes(bytes) && image.base64
            == encoding::base64_standard(bytes) && encoding::base64_bytes(image.base64) == bytes),
{
    if replies.len() > 2 {
        if let FsReplyView::Bytes(bytes) = replies[2] {
            encoding::base64_keeps_the_bytes(bytes);
        }
    }
}

/// A file is written only where its directory exists or was made.
pub proof fn files_are_written_into_directories(
    path: Seq<char>,
    contents: Seq<char>,
    platform: Platform,
    replies: Seq<FsReplyView>,
)
    ensures
        ({
            let step = directory::write_file_step(path, contents, platform, replies);
            (step matches FsStepView::Do(FsActionView::Write { .. }) || step
                matches FsStepView::Done(Ok(_))) ==> {
                ||| paths::parent(path, platform) is None
                ||| paths::parent(path, platform)->0.len() == 0
                ||| replies.len() > 0 && replies[0] == FsReplyView::Exists(true)
                ||| replies.len() > 1 && replies[0] == FsReplyView::Exists(false) && replies[1]
                    == FsReplyView::Finished
            }
        }),
        directory::write_file_step(path, contents, platform, replies) matches FsStepView::Do(
            FsActionView::Write { path: p, contents: c },
        ) ==> p == path && c == contents,
{
}

proof fn lemma_scanned(
    roots: Seq<Seq<Seq<u8>>>,
    limit: usize,
    entries: Seq<WalkEntryView>,
) -> (places: Seq<int>)
    ensures
        ({
            let scan = mentions::scanned(mentions::fresh_scan(roots, limit), entries);
            &&& scan.roots == roots
            &&& scan.limit == limit
            &&& scan.files.len() <= limit
            &&& ascending(places, entries.len() as int)
            &&& places.len() == scan.files.len()
            &&& forall|k: int|
                0 <= k < places.len() ==> scan.files[k] == entries[#[trigger] places[k]].path
                    && mentions::candidate(roots, entries[places[k]]) is Some && scan.seen.contains(
                    mentions::candidate(roots, entries[places[k]])->0,
                )
            &&& forall|k: int, m: int|
                #![trigger places[k], places[m]]
                0 <= k < m < places.len() ==> mentions::candidate(roots, entries[places[k]])
                    != mentions::candidate(roots, entries[places[m]])
            &&& forall|key: Seq<char>|
                #[trigger] scan.seen.contains(key) ==> exists|k: int|
                    0 <= k < places.len() && mentions::candidate(
                        roots,
                        entries[#[trigger] places[k]],
                    ) == Some(key)
            &&& scan.files.len() < limit ==> forall|i: int|
                0 <= i < entries.len() ==> (mentions::candidate(
                    roots,
                    #[trigger] entries[i],
                ) matches Some(key) ==> scan.seen.contains(key))
        }),
    decreases entries.len(),
{
    let fresh = mentions::fresh_scan(roots, limit);
    if entries.len() == 0 {
        seq![]
    } else {
        let n = entries.len() - 1;
        let front = entries.drop_last();
        let before = lemma_scanned(roots, limit, front);
        let old = mentions::scanned(fresh, front);
        let scan = mentions::scanned(fresh, entries);
        lemma_ascending_push(before, n);
        assert(scan == mentions::offered(old, entries[n]));
        assert forall|k: int| 0 <= k < before.len() implies front[#[trigger] before[k]]
            == entries[before[k]] by {}
        assert forall|i: int| 0 <= i < n implies front[i] == #[trigger] entries[i] by {}
        match mentions::candidate(roots, entries[n]) {
            Some(key) if old.files.len() < limit && !old.seen.contains(key) => {
                let places = before.push(n);
                assert forall|k: int| 0 <= k < places.len() implies scan.files[k]
                    == entries[#[trigger] places[k]].path && mentions::candidate(
                    roots,
                    entries[places[k]],
                ) is Some && scan.seen.contains(
                    mentions::candidate(roots, entries[places[k]])->0,
                ) by {
                    if k < before.len() {
                        assert(places[k] == before[k]);
                        assert(front[before[k]] == entries[before[k]]);
                    }
                }
                assert forall|k: int, m: int|
                    #![trigger places[k], places[m]]
                    0 <= k < m < places.len() implies mentions::candidate(
                    roots,
                    entries[places[k]],
                ) != mentions::candidate(roots, entries[places[m]]) by {
                    assert(places[k] == before[k]);
                    assert(front[before[k]] == entries[before[k]]);
                    if m < before.len() {
                        assert(places[m] == before[m]);
                        assert(front[before[m]] == entries[before[m]]);
                    }
                }
                assert forall|other: Seq<char>| #[trigger] scan.seen.contains(other) implies exists|
                    k: int,
                |
                    0 <= k < places.len() && mentions::candidate(
                        roots,
                        entries[#[trigger] places[k]],
                    ) == Some(other) by {
                    if other == key {
                        assert(places[before.len() as int] == n);
                    } else {
                        assert(old.seen.contains(other));
                        let k = choose|k: int|
                            0 <= k < before.len() && mentions::candidate(
                                roots,
                                front[#[trigger] before[k]],
                            ) == Some(other);
                        assert(places[k] == before[k]);
                        assert(front[before[k]] == entries[before[k]]);
                    }
                }
                places
            },
            _ => {
                assert forall|k: int| 0 <= k < before.len() implies scan.files[k]
                    == entries[#[trigger] before[k]].path && mentions::candidate(
                    roots,
                    entries[before[k]],
                ) is Some && scan.seen.contains(
                    mentions::candidate(roots, entries[before[k]])->0,
                ) by {
                    assert(front[before[k]] == entries[before[k]]);
                }
                assert forall|k: int, m: int|
                    #![trigger before[k], before[m]]
                    0 <= k < m < before.len() implies mentions::candidate(
                    roots,
                    entries[before[k]],
                ) != mentions::candidate(roots, entries[before[m]]) by {
                    assert(front[before[k]] == entries[before[k]]);
                    assert(front[before[m]] == entries[before[m]]);
                }
                assert forall|other: Seq<char>| #[trigger] scan.seen.contains(other) implies exists|
                    k: int,
                |
                    0 <= k < before.len() && mentions::candidate(
                        roots,
                        entries[#[trigger] before[k]],
                    ) == Some(other) by {
                    let k = choose|k: int|
                        0 <= k < before.len() && mentions::candidate(
                            roots,
                            front[#[trigger] before[k]],
                        ) == Some(other);
                    assert(front[before[k]] == entries[before[k]]);
                }
                before
            },
        }
    }
}

/// A scan takes no more files than its limit, takes only files that lie in its
/// directories, by their paths without links, takes none twice, and leaves none
/// out as long as it is not full. `places` gives the place of each file that it
/// took.
pub proof fn scans_are_bounded_and_complete(
    roots: Seq<Seq<Seq<u8>>>,
    limit: usize,
    entries: Seq<WalkEntryView>,
) -> (places: Seq<int>)
    ensures
        ({
            let files = mentions::scanned(mentions::fresh_scan(roots, limit), entries).files;
            &&& files.len() <= limit
            &&& ascending(places, entries.len() as int)
            &&& places.len() == files.len()
            &&& forall|k: int|
                0 <= k < places.len() ==> {
                    let entry = entries[#[trigger] places[k]];
                    &&& files[k] == entry.path
                    &&& entry.is_file == Some(true)
                    &&& entry.canonical is Some
                    &&& mentions::within_any(entry.canonical->0.parts, roots)
                }
            &&& forall|k: int, m: int|
                #![trigger places[k], places[m]]
                0 <= k < m < places.len() ==> entries[places[k]].canonical->0.text
                    != entries[places[m]].canonical->0.text
            &&& files.len() < limit ==> forall|i: int|
                0 <= i < entries.len() && mentions::candidate(roots, #[trigger] entries[i]) is Some
                    ==> exists|k: int|
                    0 <= k < places.len() && entries[#[trigger] places[k]].canonical->0.text
                        == entries[i].canonical->0.text
        }),
{
    let places = lemma_scanned(roots, limit, entries);
    let scan = mentions::scanned(mentions::fresh_scan(roots, limit), entries);
    if scan.files.len() < limit {
        assert forall|i: int|
            0 <= i < entries.len() && mentions::candidate(
                roots,
                #[trigger] entries[i],
            ) is Some implies exists|k: int|
            0 <= k < places.len() && entries[#[trigger] places[k]].canonical->0.text
                == entries[i].canonical->0.text by {
            let key = mentions::candidate(roots, entries[i])->0;
            assert(scan.seen.contains(key));
            let k = choose|k: int|
                0 <= k < places.len() && mentions::candidate(
                    roots,
                    entries[#[trigger] places[k]],
                ) == Some(key);
            assert(entries[places[k]].canonical->0.text == entries[i].canonical->0.text);
        }
    }
    places
}

/// A full scan stays as it is, so that a walk can end as soon as the scan is
/// full.
pub proof fn full_scans_stay(
    scan: ScanView,
    entries: Seq<WalkEntryView>,
    more: Seq<WalkEntryView>,
)
    requires
        mentions::scanned(scan, entries).files.len() >= mentions::scanned(scan, entries).limit,
    ensures
        mentions::scanned(scan, entries + more) == mentions::scanned(scan, entries),
    decreases more.len(),
{
    if more.len() == 0 {
        assert(entries + more =~= entries);
    } else {
        full_scans_stay(scan, entries, more.drop_last());
        assert((entries + more).drop_last() =~= entries + more.drop_last());
        assert((entries + more).last() == more.last());
    }
}

/// The files that a walk yields are those that the scan took, each once, with
/// their paths ascending without regard to letter case.
pub proof fn mentions_are_sorted(files: Seq<Seq<char>>) -> (order: Seq<usize>)
    requires
        files.len() <= usize::MAX,
    ensures
        ({
            let sorted = mentions::sorted_mentions(files);
            &&& sorted.len() == files.len()
            &&& order.len() == files.len()
            &&& order.no_duplicates()
            &&& forall|k: int| 0 <= k < order.len() ==> #[trigger] order[k] < files.len()
            &&& forall|i: usize| i < files.len() ==> #[trigger] order.contains(i)
            &&& forall|k: int| 0 <= k < sorted.len() ==> #[trigger] sorted[k]
                == files[order[k] as int]
            &&& forall|i: int, j: int|
                #![trigger sorted[i], sorted[j]]
                0 <= i < j < sorted.len() ==> !order::text_before(
                    encoding::lowercased(sorted[j]),
                    encoding::lowercased(sorted[i]),
                )
        }),
{
    let keys = files.map_values(|path: Seq<char>| mentions::mention_key(path));
    let order = order::sorting_keeps_every_item(keys, files);
    let sorted = mentions::sorted_mentions(files);
    assert forall|i: int, j: int|
        #![trigger sorted[i], sorted[j]]
        0 <= i < j < sorted.len() implies !order::text_before(
        encoding::lowercased(sorted[j]),
        encoding::lowercased(sorted[i]),
    ) by {
        let a = order[i] as int;
        let b = order[j] as int;
        let low_a = encoding::lowercased(sorted[i]);
        let low_b = encoding::lowercased(sorted[j]);
        assert(order::goes_before(keys, a, b));
        assert(0 <= order[i] < keys.len() && 0 <= order[j] < keys.len());
        assert(keys[a].primary == low_a && keys[b].primary == low_b);
        order::text_order_is_irreflexive(low_a);
        order::text_order_is_irreflexive(Seq::<char>::empty());
        if order::text_before(low_a, low_b) && order::text_before(low_b, low_a) {
            order::text_order_is_transitive(low_a, low_b, low_a);
        }
    }
    order
}

/// No more files are listed than the caller wants, or than
/// `DEFAULT_FILE_MENTION_LIMIT` where the caller does not say, and never more
/// than `MAX_FILE_MENTION_LIMIT`.
pub proof fn mentions_are_bounded(
    roots: Seq<Seq<char>>,
    max_results: Option<usize>,
    platform: Platform,
    replies: Seq<FsReplyView>,
)
    ensures
        mentions::mentions_step(roots, max_results, platform, replies) matches FsStepView::Done(
            Ok(files),
        ) ==> {
            &&& files.len() <= (match max_results {
                Some(n) => n,
                None => mentions::DEFAULT_FILE_MENTION_LIMIT,
            })
            &&& files.len() <= mentions::MAX_FILE_MENTION_LIMIT
        },
{
    let limit = mentions::limit_of(max_results);
    match mentions::mentions_step(roots, max_results, platform, replies) {
        FsStepView::Done(Ok(files)) => {
            if files.len() > 0 {
                match replies[1] {
                    FsReplyView::Walked { roots: found, entries } => {
                        let kept = mentions::resolved(found);
                        let scan = mentions::scanned(mentions::fresh_scan(kept, limit), entries);
                        let _ = lemma_scanned(kept, limit, entries);
                        let _ = mentions_are_sorted(scan.files);
                    },
                    _ => {},
                }
            }
        },
        _ => {},
    }
}

/// An operation that is over stays over, whatever replies come behind those that
/// it has.
pub proof fn finished_operations_stay(
    path: Seq<char>,
    contents: Seq<char>,
    list: Seq<Seq<char>>,
    max_results: Option<usize>,
    platform: Platform,
    replies: Seq<FsReplyView>,
    more: Seq<FsReplyView>,
)
    ensures
        directory::path_exists_step(path, replies) is Done ==> directory::path_exists_step(
            path,
            replies + more,
        ) == directory::path_exists_step(path, replies),
        directory::write_file_step(path, contents, platform, replies) is Done
            ==> directory::write_file_step(path, contents, platform, replies + more)
            == directory::write_file_step(path, contents, platform, replies),
        directory::directory_step(path, replies) is Done ==> directory::directory_step(
            path,
            replies + more,
        ) == directory::directory_step(path, replies),
        attachments::normalize_step(list, platform, replies) is Done
            ==> attachments::normalize_step(list, platform, replies + more)
            == attachments::normalize_step(list, platform, replies),
        attachments::inspect_step(list, platform, replies) is Done ==> attachments::inspect_step(
            list,
            platform,
            replies + more,
        ) == attachments::inspect_step(list, platform, replies),
        attachments::read_image_step(path, platform, replies) is Done
            ==> attachments::read_image_step(path, platform, replies + more)
            == attachments::read_image_step(path, platform, replies),
        mentions::mentions_step(list, max_results, platform, replies) is Done
            ==> mentions::mentions_step(list, max_results, platform, replies + more)
            == mentions::mentions_step(list, max_results, platform, replies),
{
    let all = replies + more;
    assert forall|i: int| 0 <= i < replies.len() implies #[trigger] all[i] == replies[i] by {}
}

} // verus!
