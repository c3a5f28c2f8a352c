//! Counting the lines of several files, one after the other.

use crate::git::exchange::{ActionView, GitAction, GitReply, GitStep, ReplyView, StepView};
use crate::git::listing;
use crate::platform::Platform;
use crate::text;
use vstd::prelude::*;

verus! {

/// How far the counting of files in a directory has come: the added and deleted
/// lines of the files that are done, and the size of the file at hand, where it
/// is known and the text of that file is awaited.
pub struct CounterView {
    pub dir: Seq<char>,
    pub files: Seq<Seq<char>>,
    pub platform: Platform,
    pub counts: Seq<(u32, u32)>,
    pub size: Option<u64>,
}

/// Counting that has not begun.
pub open spec fn fresh_counter(
    dir: Seq<char>,
    files: Seq<Seq<char>>,
    platform: Platform,
) -> CounterView {
    CounterView { dir, files, platform, counts: seq![], size: None }
}

/// The replies that are there for the file at hand.
pub open spec fn own_replies(counter: CounterView) -> Seq<ReplyView> {
    match counter.size {
        Some(n) => seq![ReplyView::FileSize(Some(n))],
        None => seq![],
    }
}

/// The step of counting the file at hand, by some replies.
pub open spec fn file_step(counter: CounterView, own: Seq<ReplyView>) -> StepView<(u32, u32)> {
    listing::count_lines_step(
        counter.dir,
        counter.files[counter.counts.len() as int],
        counter.platform,
        own,
    )
}

/// The action that is wanted next. None is wanted when all files are counted.
pub open spec fn wanted_action(counter: CounterView) -> Option<ActionView> {
    if counter.counts.len() >= counter.files.len() {
        None
    } else {
        match file_step(counter, own_replies(counter)) {
            StepView::Do(action) => Some(action),
            _ => None,
        }
    }
}

/// Counting that has come so far and gets one more reply: it is taken for the
/// file at hand, and where that file is then counted, the next one is at hand.
pub open spec fn told(counter: CounterView, reply: ReplyView) -> CounterView {
    if counter.counts.len() >= counter.files.len() {
        counter
    } else {
        let own = own_replies(counter).push(reply);
        match (file_step(counter, own), own[0]) {
            (StepView::Done(Ok(count)), _) => CounterView {
                counts: counter.counts.push(count),
                size: None,
                ..counter
            },
            (_, ReplyView::FileSize(size)) => CounterView { size, ..counter },
            _ => counter,
        }
    }
}

/// Counting that has come so far and gets several replies.
pub open spec fn told_all(counter: CounterView, replies: Seq<ReplyView>) -> CounterView
    decreases replies.len(),
{
    if replies.len() == 0 {
        counter
    } else {
        told(told_all(counter, replies.drop_last()), replies.last())
    }
}

/// The counts of all the files in a directory, where the counting is about just
/// those and is over.
pub open spec fn finished_counts(
    counter: CounterView,
    dir: Seq<char>,
    files: Seq<Seq<char>>,
    platform: Platform,
) -> Option<Seq<(u32, u32)>> {
    if counter.dir == dir && counter.files == files && counter.platform == platform
        && counter.counts.len() == files.len() {
        Some(counter.counts)
    } else {
        None
    }
}

/// The counting of the lines of several files, one after the other.
#[derive(Debug, PartialEq, Eq)]
pub struct LineCounter {
    dir: String,
    files: Vec<String>,
    platform: Platform,
    counts: Vec<(u32, u32)>,
    size: Option<u64>,
}

impl View for LineCounter {
    type V = CounterView;

    closed spec fn view(&self) -> CounterView {
        CounterView {
            dir: self.dir@,
            files: self.files.deep_view(),
            platform: self.platform,
            counts: self.counts@,
            size: self.size,
        }
    }
}

fn same_texts(a: &Vec<String>, b: &Vec<String>) -> (r: bool)
    ensures
        r == (a.deep_view() == b.deep_view()),
{
    assert(a.deep_view().len() == a@.len() && b.deep_view().len() == b@.len());
    if a.len() != b.len() {
        return false;
    }
    for i in 0..a.len()
        invariant
            a@.len() == b@.len(),
            forall|k: int| 0 <= k < i ==> a.deep_view()[k] == b.deep_view()[k],
    {
        assert(a.deep_view()[i as int] == a@[i as int]@);
        assert(b.deep_view()[i as int] == b@[i as int]@);
        if !text::same_text(a[i].as_str(), b[i].as_str()) {
            return false;
        }
    }
    assert(a.deep_view() =~= b.deep_view());
    true
}

impl LineCounter {
    /// Counting that has not begun.
    pub fn new(dir: &str, files: Vec<String>, platform: Platform) -> (r: LineCounter)
        ensures
            r@ == fresh_counter(dir@, files.deep_view(), platform),
    {
        LineCounter { dir: dir.to_string(), files, platform, counts: Vec::new(), size: None }
    }

    /// The action that is wanted next, if any.
    pub fn wanted(&self) -> (r: Option<GitAction>)
        ensures
            match r {
                Some(action) => wanted_action(self@) == Some(action@),
                None => wanted_action(self@) is None,
            },
    {
        assert(self.files@.len() == self.files.deep_view().len());
        if self.counts.len() >= self.files.len() {
            return None;
        }
        let mut own: Vec<GitReply> = Vec::new();
        if let Some(n) = self.size {
            own.push(GitReply::FileSize(Some(n)));
        }
        assert(own.deep_view() =~= own_replies(self@));
        let file = &self.files[self.counts.len()];
        match listing::count_file_lines(self.dir.as_str(), file.as_str(), self.platform, &own) {
            GitStep::Do(action) => Some(action),
            _ => None,
        }
    }

    /// Takes the reply to the action that was wanted.
    pub fn tell(&mut self, reply: GitReply)
        ensures
            final(self)@ == told(old(self)@, reply@),
    {
        assert(self.files@.len() == self.files.deep_view().len());
        if self.counts.len() >= self.files.len() {
            return;
        }
        let ghost before = self@;
        let mut own: Vec<GitReply> = Vec::new();
        if let Some(n) = self.size {
            own.push(GitReply::FileSize(Some(n)));
        }
        own.push(reply);
        assert(own.deep_view() =~= own_replies(before).push(reply@));
        assert(own.deep_view()[0] == own@[0]@);
        let file = &self.files[self.counts.len()];
        match listing::count_file_lines(self.dir.as_str(), file.as_str(), self.platform, &own) {
            GitStep::Done(Ok(count)) => {
                self.counts.push(count);
                self.size = None;
            },
            _ => {
                if let GitReply::FileSize(size) = &own[0] {
                    self.size = *size;
                }
            },
        }
    }

    /// The counts of all the files in a directory, where the counting is about
    /// just those and is over.
    pub fn finished(&self, dir: &str, files: &Vec<String>, platform: Platform) -> (r: Option<
        &Vec<(u32, u32)>,
    >)
        ensures
            match r {
                Some(counts) => finished_counts(self@, dir@, files.deep_view(), platform) == Some(
                    counts@,
                ),
                None => finished_counts(self@, dir@, files.deep_view(), platform) is None,
            },
    {
        assert(files@.len() == files.deep_view().len());
        if text::same_text(self.dir.as_str(), dir) && same_texts(&self.files, files)
            && self.platform == platform && self.counts.len() == files.len() {
            Some(&self.counts)
        } else {
            None
        }
    }
}

} // verus!
