//! Bringing the fetched libraries up to date with their upstream, while
//! local edits are kept.
//!
//! Each entry of the cache directory is handled on its own, in four steps:
//! local changes are stashed, if there are any; the upstream is pulled; the
//! stash, if one was made, is applied again; and a stash that no longer
//! applies is recorded as a conflict. Whatever happens to one library, the
//! next one is handled all the same.
//!
//! As with a resolution, the library only says what has to be done next
//! and takes in how it went.

use vstd::prelude::*;

verus! {

/// What became of one library during an update.
#[derive(Debug, PartialEq, Eq)]
pub enum UpdateOutcome {
    /// The upstream was pulled, and local changes are back in place.
    Updated { name: String },
    /// The directory holds no repository; it was left alone.
    UpdateSkipped { name: String },
    /// The upstream was pulled, but the stashed local changes no longer
    /// apply.
    StashReapplyConflict { name: String },
}

/// The mathematical value of an [`UpdateOutcome`].
pub enum OutcomeView {
    Updated { name: Seq<char> },
    UpdateSkipped { name: Seq<char> },
    StashReapplyConflict { name: Seq<char> },
}

impl View for UpdateOutcome {
    type V = OutcomeView;

    open spec fn view(&self) -> OutcomeView {
        match self {
            UpdateOutcome::Updated { name } => OutcomeView::Updated { name: name@ },
            UpdateOutcome::UpdateSkipped { name } => OutcomeView::UpdateSkipped { name: name@ },
            UpdateOutcome::StashReapplyConflict { name } => OutcomeView::StashReapplyConflict {
                name: name@,
            },
        }
    }
}

impl DeepView for UpdateOutcome {
    type V = OutcomeView;

    open spec fn deep_view(&self) -> OutcomeView {
        self@
    }
}

impl Clone for UpdateOutcome {
    fn clone(&self) -> (r: Self)
        ensures
            r@ == self@,
    {
        match self {
            UpdateOutcome::Updated { name } => UpdateOutcome::Updated { name: name.clone() },
            UpdateOutcome::UpdateSkipped { name } => UpdateOutcome::UpdateSkipped {
                name: name.clone(),
            },
            UpdateOutcome::StashReapplyConflict { name } => UpdateOutcome::StashReapplyConflict {
                name: name.clone(),
            },
        }
    }
}

impl UpdateOutcome {
    /// The library that the outcome is about.
    pub fn name(&self) -> (n: &String)
        ensures
            n@ == match self@ {
                OutcomeView::Updated { name } => name,
                OutcomeView::UpdateSkipped { name } => name,
                OutcomeView::StashReapplyConflict { name } => name,
            },
    {
        match self {
            UpdateOutcome::Updated { name } => name,
            UpdateOutcome::UpdateSkipped { name } => name,
            UpdateOutcome::StashReapplyConflict { name } => name,
        }
    }
}

/// What the caller is asked to do next for the entry `name` of the cache
/// directory, or the report of the finished update.
#[derive(Debug, PartialEq, Eq)]
pub enum SyncRequest {
    /// Tell what the entry is: no directory, a directory without a
    /// repository, or a repository.
    Open { name: String },
    /// Stash the local changes of the repository, if it has any.
    Stash { name: String },
    /// Pull from the upstream of the repository.
    Pull { name: String },
    /// Apply the stash again.
    Reapply { name: String },
    /// Every entry has been handled.
    Finished { report: Vec<UpdateOutcome> },
}

/// The mathematical value of a [`SyncRequest`].
pub enum SyncRequestView {
    Open { name: Seq<char> },
    Stash { name: Seq<char> },
    Pull { name: Seq<char> },
    Reapply { name: Seq<char> },
    Finished { report: Seq<OutcomeView> },
}

impl View for SyncRequest {
    type V = SyncRequestView;

    open spec fn view(&self) -> SyncRequestView {
        match self {
            SyncRequest::Open { name } => SyncRequestView::Open { name: name@ },
            SyncRequest::Stash { name } => SyncRequestView::Stash { name: name@ },
            SyncRequest::Pull { name } => SyncRequestView::Pull { name: name@ },
            SyncRequest::Reapply { name } => SyncRequestView::Reapply { name: name@ },
            SyncRequest::Finished { report } => SyncRequestView::Finished {
                report: report.deep_view(),
            },
        }
    }
}

/// How the last request went.
#[derive(Clone, Copy, Debug, PartialEq, Eq)]
pub enum SyncReply {
    /// The entry is no directory.
    NotDirectory,
    /// The entry is a directory that holds no repository.
    NotRepository,
    /// The entry holds a repository.
    Opened,
    /// Local changes were found and stashed.
    Stashed,
    /// There was nothing to stash.
    Clean,
    /// The pull has run.
    Pulled,
    /// The stash is applied again.
    Reapplied,
    /// The stash does not apply any more.
    Conflict,
}

/// How far the update of one library has come.
#[derive(Clone, Copy, Debug, PartialEq, Eq)]
pub enum SyncPhase {
    /// The entry is being looked at.
    Open,
    /// Local changes are being stashed.
    Stash,
    /// The upstream is being pulled; `stashed` tells whether a stash was
    /// made before.
    Pull { stashed: bool },
    /// The stash is being applied again.
    Reapply,
}

/// The mathematical value of a [`Synchronizer`].
pub struct SyncView {
    /// The entries of the cache directory, by name.
    pub entries: Seq<Seq<char>>,
    /// How many entries are behind.
    pub cursor: nat,
    /// How far the update of the entry at the cursor has come.
    pub phase: SyncPhase,
    /// The outcomes recorded so far.
    pub report: Seq<OutcomeView>,
}

impl SyncView {
    /// The state in which no entry has been handled yet.
    pub open spec fn begin(entries: Seq<Seq<char>>) -> SyncView {
        SyncView { entries, cursor: 0, phase: SyncPhase::Open, report: Seq::empty() }
    }

    /// Whether every entry has been handled.
    pub open spec fn finished(self) -> bool {
        self.cursor >= self.entries.len()
    }

    /// The state once the entry at the cursor is behind, with what was
    /// recorded for it.
    pub open spec fn settle(self, outcome: Option<OutcomeView>) -> SyncView {
        SyncView {
            cursor: self.cursor + 1,
            phase: SyncPhase::Open,
            report: match outcome {
                Some(o) => self.report.push(o),
                None => self.report,
            },
            ..self
        }
    }

    /// What is asked of the caller in this state.
    pub open spec fn request(self) -> SyncRequestView {
        if self.finished() {
            SyncRequestView::Finished { report: self.report }
        } else {
            let name = self.entries[self.cursor as int];
            match self.phase {
                SyncPhase::Open => SyncRequestView::Open { name },
                SyncPhase::Stash => SyncRequestView::Stash { name },
                SyncPhase::Pull { .. } => SyncRequestView::Pull { name },
                SyncPhase::Reapply => SyncRequestView::Reapply { name },
            }
        }
    }

    /// The state after `reply` has come in. A reply that does not answer
    /// the request of the state changes nothing, and neither does any
    /// reply once every entry has been handled.
    pub open spec fn next(self, reply: SyncReply) -> SyncView {
        if self.finished() {
            self
        } else {
            let name = self.entries[self.cursor as int];
            match self.phase {
                SyncPhase::Open => match reply {
                    SyncReply::NotDirectory => self.settle(None),
                    SyncReply::NotRepository => self.settle(
                        Some(OutcomeView::UpdateSkipped { name }),
                    ),
                    SyncReply::Opened => SyncView { phase: SyncPhase::Stash, ..self },
                    _ => self,
                },
                SyncPhase::Stash => match reply {
                    SyncReply::Stashed => SyncView {
                        phase: SyncPhase::Pull { stashed: true },
                        ..self
                    },
                    SyncReply::Clean => SyncView {
                        phase: SyncPhase::Pull { stashed: false },
                        ..self
                    },
                    _ => self,
                },
                SyncPhase::Pull { stashed } => match reply {
                    SyncReply::Pulled => if stashed {
                        SyncView { phase: SyncPhase::Reapply, ..self }
                    } else {
                        self.settle(Some(OutcomeView::Updated { name }))
                    },
                    _ => self,
                },
                SyncPhase::Reapply => match reply {
                    SyncReply::Reapplied => self.settle(Some(OutcomeView::Updated { name })),
                    SyncReply::Conflict => self.settle(
                        Some(OutcomeView::StashReapplyConflict { name }),
                    ),
                    _ => self,
                },
            }
        }
    }

    /// The state after the replies `replies` have come in, one after the
    /// other.
    pub open spec fn run(self, replies: Seq<SyncReply>) -> SyncView
        decreases replies.len(),
    {
        if replies.len() == 0 {
            self
        } else {
            self.run(replies.drop_last()).next(replies.last())
        }
    }
}

/// What an entry of the cache directory turns out to be while it is
/// updated.
pub enum Fate {
    /// No directory.
    NotDirectory,
    /// A directory without a repository.
    NotRepository,
    /// A repository; `stashed` tells whether it had local changes,
    /// `conflict` whether they failed to apply after the pull.
    Repository { stashed: bool, conflict: bool },
}

/// The replies that an entry with the fate `fate` gives to the requests
/// made for it, in order.
pub open spec fn replies_of(fate: Fate) -> Seq<SyncReply> {
    match fate {
        Fate::NotDirectory => seq![SyncReply::NotDirectory],
        Fate::NotRepository => seq![SyncReply::NotRepository],
        Fate::Repository { stashed, conflict } => if !stashed {
            seq![SyncReply::Opened, SyncReply::Clean, SyncReply::Pulled]
        } else if conflict {
            seq![SyncReply::Opened, SyncReply::Stashed, SyncReply::Pulled, SyncReply::Conflict]
        } else {
            seq![SyncReply::Opened, SyncReply::Stashed, SyncReply::Pulled, SyncReply::Reapplied]
        },
    }
}

/// What is recorded for the entry `name` with the fate `fate`.
pub open spec fn outcome_for(name: Seq<char>, fate: Fate) -> Option<OutcomeView> {
    match fate {
        Fate::NotDirectory => None,
        Fate::NotRepository => Some(OutcomeView::UpdateSkipped { name }),
        Fate::Repository { stashed, conflict } => if stashed && conflict {
            Some(OutcomeView::StashReapplyConflict { name })
        } else {
            Some(OutcomeView::Updated { name })
        },
    }
}

/// The replies that the entries give when they have the fates `fates`,
/// one entry after the other.
pub open spec fn replies_of_all(fates: Seq<Fate>) -> Seq<SyncReply>
    decreases fates.len(),
{
    if fates.len() == 0 {
        Seq::empty()
    } else {
        replies_of_all(fates.drop_last()) + replies_of(fates.last())
    }
}

/// What is recorded for the first `fates.len()` of the entries when they
/// have the fates `fates`: the outcome of each, in the order of the
/// entries.
pub open spec fn report_for(entries: Seq<Seq<char>>, fates: Seq<Fate>) -> Seq<OutcomeView>
    decreases fates.len(),
{
    if fates.len() == 0 {
        Seq::empty()
    } else {
        let before = report_for(entries, fates.drop_last());
        match outcome_for(entries[fates.len() - 1], fates.last()) {
            Some(o) => before.push(o),
            None => before,
        }
    }
}

/// Replies that come in one run after another have the effect of one run.
pub proof fn lemma_run_concat(s: SyncView, a: Seq<SyncReply>, b: Seq<SyncReply>)
    ensures
        s.run(a + b) == s.run(a).run(b),
    decreases b.len(),
{
    if b.len() == 0 {
        assert(a + b =~= a);
    } else {
        lemma_run_concat(s, a, b.drop_last());
        assert((a + b).drop_last() =~= a + b.drop_last());
        assert((a + b).last() == b.last());
    }
}

/// The replies of one entry carry the update from the start of that entry
/// to the start of the next, and record the outcome of the entry.
pub proof fn lemma_one_entry(s: SyncView, fate: Fate)
    requires
        !s.finished(),
        s.phase is Open,
    ensures
        s.run(replies_of(fate)) == s.settle(outcome_for(s.entries[s.cursor as int], fate)),
{
    let r = replies_of(fate);
    let s1 = s.next(r[0]);
    assert(s.run(r.take(0)) == s);
    assert(r.take(1).drop_last() =~= r.take(0));
    assert(s.run(r.take(1)) == s1);
    if r.len() == 1 {
        assert(r.take(1) =~= r);
    } else {
        let s2 = s1.next(r[1]);
        assert(r.take(2).drop_last() =~= r.take(1));
        assert(s.run(r.take(2)) == s2);
        let s3 = s2.next(r[2]);
        assert(r.take(3).drop_last() =~= r.take(2));
        assert(s.run(r.take(3)) == s3);
        if r.len() == 3 {
            assert(r.take(3) =~= r);
        } else {
            let s4 = s3.next(r[3]);
            assert(r.take(4).drop_last() =~= r.take(3));
            assert(s.run(r.take(4)) == s4);
            assert(r.take(4) =~= r);
        }
    }
}

/// No library holds up another: whatever the fates of the entries, every
/// entry is handled, and the report holds the outcome of each entry, in
/// the order of the entries, as that entry's own fate decides it.
pub proof fn law_each_entry_has_its_own_outcome(entries: Seq<Seq<char>>, fates: Seq<Fate>)
    requires
        fates.len() <= entries.len(),
    ensures
        SyncView::begin(entries).run(replies_of_all(fates)) == (SyncView {
            entries,
            cursor: fates.len(),
            phase: SyncPhase::Open,
            report: report_for(entries, fates),
        }),
        fates.len() == entries.len() ==> SyncView::begin(entries).run(
            replies_of_all(fates),
        ).request() == (SyncRequestView::Finished { report: report_for(entries, fates) }),
    decreases fates.len(),
{
    if fates.len() > 0 {
        let front = fates.drop_last();
        law_each_entry_has_its_own_outcome(entries, front);
        let s = SyncView::begin(entries).run(replies_of_all(front));
        lemma_run_concat(SyncView::begin(entries), replies_of_all(front), replies_of(fates.last()));
        lemma_one_entry(s, fates.last());
    }
}

/// An outcome is recorded only when an entry is behind, it is recorded
/// last, and what was recorded before stays.
pub proof fn law_report_only_grows(s: SyncView, reply: SyncReply)
    ensures
        s.next(reply).entries == s.entries,
        s.next(reply).cursor == s.cursor || s.next(reply).cursor == s.cursor + 1,
        s.next(reply).report == s.report || (s.next(reply).cursor == s.cursor + 1 && s.next(
            reply,
        ).report.drop_last() == s.report),
{
    let t = s.next(reply);
    if t.report != s.report {
        assert(t.report.drop_last() =~= s.report);
    }
}

/// A copy of a report.
pub fn clone_report(report: &Vec<UpdateOutcome>) -> (r: Vec<UpdateOutcome>)
    ensures
        r.deep_view() == report.deep_view(),
{
    let mut r: Vec<UpdateOutcome> = Vec::new();
    let mut i: usize = 0;
    while i < report.len()
        invariant
            i <= report.len(),
            r.len() == i,
            forall|j: int| 0 <= j < i ==> r@[j]@ == report@[j]@,
        decreases report.len() - i,
    {
        r.push(report[i].clone());
        i += 1;
    }
    proof {
        assert(r.deep_view() =~= report.deep_view());
    }
    r
}

/// The update of the libraries of one cache directory, under way.
#[derive(Debug)]
pub struct Synchronizer {
    entries: Vec<String>,
    cursor: usize,
    phase: SyncPhase,
    report: Vec<UpdateOutcome>,
}

impl View for Synchronizer {
    type V = SyncView;

    closed spec fn view(&self) -> SyncView {
        SyncView {
            entries: self.entries.deep_view(),
            cursor: self.cursor as nat,
            phase: self.phase,
            report: self.report.deep_view(),
        }
    }
}

impl Synchronizer {
    /// Sets out to update the entries `entries` of a cache directory, in
    /// the order given.
    pub fn begin(entries: Vec<String>) -> (r: Self)
        ensures
            r@ == SyncView::begin(entries.deep_view()),
    {
        let r = Synchronizer { entries, cursor: 0, phase: SyncPhase::Open, report: Vec::new() };
        proof {
            assert(r.report.deep_view() =~= Seq::<OutcomeView>::empty());
        }
        r
    }

    /// Whether every entry has been handled.
    pub fn is_finished(&self) -> (b: bool)
        ensures
            b == self@.finished(),
    {
        self.cursor >= self.entries.len()
    }

    /// What the caller is asked to do next, or the report of the update.
    pub fn request(&self) -> (r: SyncRequest)
        ensures
            r@ == self@.request(),
    {
        if self.cursor >= self.entries.len() {
            return SyncRequest::Finished { report: clone_report(&self.report) };
        }
        let name = self.entries[self.cursor].clone();
        match self.phase {
            SyncPhase::Open => SyncRequest::Open { name },
            SyncPhase::Stash => SyncRequest::Stash { name },
            SyncPhase::Pull { .. } => SyncRequest::Pull { name },
            SyncPhase::Reapply => SyncRequest::Reapply { name },
        }
    }

    /// Records `outcome` and turns to the next entry.
    fn settle(&mut self, outcome: Option<UpdateOutcome>)
        requires
            !old(self)@.finished(),
        ensures
            final(self)@ == old(self)@.settle(outcome.deep_view()),
    {
        let ghost before = self.report.deep_view();
        proof {
            assert(self.entries.deep_view().len() == self.entries.len());
        }
        match outcome {
            Some(o) => {
                self.report.push(o);
                proof {
                    assert(self.report.deep_view() =~= before.push(o@));
                }
            },
            None => {},
        }
        self.cursor = self.cursor + 1;
        self.phase = SyncPhase::Open;
    }

    /// Takes in how the last request went.
    pub fn reply(&mut self, reply: SyncReply)
        ensures
            final(self)@ == old(self)@.next(reply),
    {
        if self.cursor >= self.entries.len() {
            return;
        }
        match self.phase {
            SyncPhase::Open => match reply {
                SyncReply::NotDirectory => {
                    self.settle(None);
                },
                SyncReply::NotRepository => {
                    let name = self.entries[self.cursor].clone();
                    self.settle(Some(UpdateOutcome::UpdateSkipped { name }));
                },
                SyncReply::Opened => {
                    self.phase = SyncPhase::Stash;
                },
                _ => {},
            },
            SyncPhase::Stash => match reply {
                SyncReply::Stashed => {
                    self.phase = SyncPhase::Pull { stashed: true };
                },
                SyncReply::Clean => {
                    self.phase = SyncPhase::Pull { stashed: false };
                },
                _ => {},
            },
            SyncPhase::Pull { stashed } => match reply {
                SyncReply::Pulled => {
                    if stashed {
                        self.phase = SyncPhase::Reapply;
                    } else {
                        let name = self.entries[self.cursor].clone();
                        self.settle(Some(UpdateOutcome::Updated { name }));
                    }
                },
                _ => {},
            },
            SyncPhase::Reapply => match reply {
                SyncReply::Reapplied => {
                    let name = self.entries[self.cursor].clone();
                    self.settle(Some(UpdateOutcome::Updated { name }));
                },
                SyncReply::Conflict => {
                    let name = self.entries[self.cursor].clone();
                    self.settle(Some(UpdateOutcome::StashReapplyConflict { name }));
                },
                _ => {},
            },
        }
    }
}

} // verus!
