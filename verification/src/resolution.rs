//! Carrying out a plan: the resolution of one file as a sequence of
//! requests to the outside and of replies from it.
//!
//! The library never touches the disk or the network. It says what has to
//! be done next ([`Resolution::request`]), the caller does it and reports
//! how it went ([`Resolution::reply`]), until the request is the outcome
//! of the resolution.
//!
//! For a library of the registry the cache directory is probed first. If
//! it is there, nothing more is done for that library. If not, the library
//! is cloned and, where it is pinned, the pin is checked out; a failure of
//! either ends the resolution. Copying a local file and fetching an
//! archive are tried once each, and the resolution goes on however they
//! went.

use crate::dependency::{DependencyView, ErrorView, ResolutionError, ResolvedDependency};
use crate::resolver::{Fetch, FetchView, PlanView, ResolutionPlan};
use vstd::prelude::*;

verus! {

/// What the caller is asked to do next, or what the resolution came to.
#[derive(Debug, PartialEq, Eq)]
pub enum Request {
    /// Tell whether the cache directory of the library `name` exists.
    ProbeCache { name: String },
    /// Clone `url` into the cache directory of the library `name`.
    CloneLibrary { name: String, url: String },
    /// Check out the ref `version` in the fresh clone of `name`.
    CheckoutPin { name: String, version: String },
    /// Copy the file at `path` into the cache directory, under its base
    /// name.
    CopyLocal { path: String },
    /// Download the archive at `url` and unpack it into the cache
    /// directory.
    FetchArchive { url: String },
    /// Nothing is left to do: these are the dependencies of the file.
    Resolved { dependencies: Vec<ResolvedDependency> },
    /// Nothing is left to do: the resolution failed.
    Failed { error: ResolutionError },
}

/// The mathematical value of a [`Request`].
pub enum RequestView {
    ProbeCache { name: Seq<char> },
    CloneLibrary { name: Seq<char>, url: Seq<char> },
    CheckoutPin { name: Seq<char>, version: Seq<char> },
    CopyLocal { path: Seq<char> },
    FetchArchive { url: Seq<char> },
    Resolved { dependencies: Seq<DependencyView> },
    Failed { error: ErrorView },
}

impl View for Request {
    type V = RequestView;

    open spec fn view(&self) -> RequestView {
        match self {
            Request::ProbeCache { name } => RequestView::ProbeCache { name: name@ },
            Request::CloneLibrary { name, url } => RequestView::CloneLibrary {
                name: name@,
                url: url@,
            },
            Request::CheckoutPin { name, version } => RequestView::CheckoutPin {
                name: name@,
                version: version@,
            },
            Request::CopyLocal { path } => RequestView::CopyLocal { path: path@ },
            Request::FetchArchive { url } => RequestView::FetchArchive { url: url@ },
            Request::Resolved { dependencies } => RequestView::Resolved {
                dependencies: dependencies.deep_view(),
            },
            Request::Failed { error } => RequestView::Failed { error: error@ },
        }
    }
}

/// How the last request went.
#[derive(Debug, PartialEq, Eq)]
pub enum Reply {
    /// The directory that was probed exists.
    Present,
    /// The directory that was probed does not exist.
    Absent,
    /// What was asked for has been done.
    Done,
    /// What was asked for could not be done.
    Failed { cause: String },
}

/// The mathematical value of a [`Reply`].
pub enum ReplyView {
    Present,
    Absent,
    Done,
    Failed { cause: Seq<char> },
}

impl View for Reply {
    type V = ReplyView;

    open spec fn view(&self) -> ReplyView {
        match self {
            Reply::Present => ReplyView::Present,
            Reply::Absent => ReplyView::Absent,
            Reply::Done => ReplyView::Done,
            Reply::Failed { cause } => ReplyView::Failed { cause: cause@ },
        }
    }
}

/// How far the fetch of a library has come.
#[derive(Clone, Copy, Debug, PartialEq, Eq)]
pub enum Phase {
    /// The cache directory is being probed.
    Probe,
    /// The library is being cloned.
    Clone,
    /// The pinned ref is being checked out.
    Checkout,
}

/// The mathematical value of a [`Resolution`].
pub struct ResolutionView {
    /// The plan that is carried out.
    pub plan: PlanView,
    /// How many fetches of the plan are behind.
    pub cursor: nat,
    /// How far the fetch at the cursor has come.
    pub phase: Phase,
    /// The failure that ended the resolution, if one did.
    pub failure: Option<ErrorView>,
}

/// The ref to check out for a version entry, if there is one to check out:
/// an empty pin is no pin.
pub open spec fn pin_of(version: Option<Seq<char>>) -> Option<Seq<char>> {
    match version {
        Some(v) => if v.len() > 0 {
            Some(v)
        } else {
            None
        },
        None => None,
    }
}

impl ResolutionView {
    /// The state in which nothing of `plan` has been fetched yet.
    pub open spec fn begin(plan: PlanView) -> ResolutionView {
        ResolutionView { plan, cursor: 0, phase: Phase::Probe, failure: None }
    }

    /// Whether nothing is left to do.
    pub open spec fn finished(self) -> bool {
        self.failure is Some || self.cursor >= self.plan.fetches.len()
    }

    /// The state once the fetch at the cursor is behind.
    pub open spec fn advance(self) -> ResolutionView {
        ResolutionView { cursor: self.cursor + 1, phase: Phase::Probe, ..self }
    }

    /// The state once fetching the library `name`, declared at `line`, has
    /// failed for `cause`.
    pub open spec fn fail(self, line: nat, name: Seq<char>, cause: Seq<char>) -> ResolutionView {
        ResolutionView {
            failure: Some(
                ErrorView::MaterializationFailed { file: self.plan.file, line, name, cause },
            ),
            ..self
        }
    }

    /// What is asked of the caller in this state.
    pub open spec fn request(self) -> RequestView {
        if let Some(error) = self.failure {
            RequestView::Failed { error }
        } else if self.cursor >= self.plan.fetches.len() {
            match self.plan.error {
                Some(error) => RequestView::Failed { error },
                None => RequestView::Resolved { dependencies: self.plan.dependencies },
            }
        } else {
            match self.plan.fetches[self.cursor as int] {
                FetchView::Library { line, name, url, version } => match self.phase {
                    Phase::Probe => RequestView::ProbeCache { name },
                    Phase::Clone => RequestView::CloneLibrary { name, url },
                    Phase::Checkout => RequestView::CheckoutPin {
                        name,
                        version: match version {
                            Some(v) => v,
                            None => Seq::empty(),
                        },
                    },
                },
                FetchView::Local { path } => RequestView::CopyLocal { path },
                FetchView::Archive { url } => RequestView::FetchArchive { url },
            }
        }
    }

    /// The state after `reply` has come in. A reply that does not answer
    /// the request of the state changes nothing, and neither does any
    /// reply once nothing is left to do.
    pub open spec fn next(self, reply: ReplyView) -> ResolutionView {
        if self.finished() {
            self
        } else {
            match self.plan.fetches[self.cursor as int] {
                FetchView::Library { line, name, url, version } => match self.phase {
                    Phase::Probe => match reply {
                        ReplyView::Present => self.advance(),
                        ReplyView::Absent => ResolutionView { phase: Phase::Clone, ..self },
                        _ => self,
                    },
                    Phase::Clone => match reply {
                        ReplyView::Done => if pin_of(version) is Some {
                            ResolutionView { phase: Phase::Checkout, ..self }
                        } else {
                            self.advance()
                        },
                        ReplyView::Failed { cause } => self.fail(line, name, cause),
                        _ => self,
                    },
                    Phase::Checkout => match reply {
                        ReplyView::Done => self.advance(),
                        ReplyView::Failed { cause } => self.fail(line, name, cause),
                        _ => self,
                    },
                },
                _ => match reply {
                    ReplyView::Done => self.advance(),
                    ReplyView::Failed { cause } => self.advance(),
                    _ => self,
                },
            }
        }
    }

    /// The state after the replies `replies` have come in, one after the
    /// other.
    pub open spec fn run(self, replies: Seq<ReplyView>) -> ResolutionView
        decreases replies.len(),
    {
        if replies.len() == 0 {
            self
        } else {
            self.run(replies.drop_last()).next(replies.last())
        }
    }
}

/// A library whose cache directory is there is not fetched again: after
/// the probe has found the directory, the next request concerns the next
/// fetch of the plan, and nothing has failed.
pub proof fn law_present_library_is_left_alone(s: ResolutionView)
    requires
        s.request() is ProbeCache,
    ensures
        s.next(ReplyView::Present) == s.advance(),
        s.next(ReplyView::Present).failure is None,
        !(s.next(ReplyView::Present).request() is CloneLibrary),
        !(s.next(ReplyView::Present).request() is CheckoutPin),
{
}

/// A library is cloned only after the probe has not found its directory,
/// and its pin is checked out only after the clone is done.
pub proof fn law_clone_follows_absence(s: ResolutionView, reply: ReplyView)
    ensures
        s.next(reply).request() is CloneLibrary && !(s.request() is CloneLibrary) ==> s.request()
            is ProbeCache && reply is Absent,
        s.next(reply).request() is CheckoutPin && !(s.request() is CheckoutPin) ==> s.request()
            is CloneLibrary && reply is Done,
{
}

/// A clone or a checkout that fails ends the resolution with that failure:
/// the error names the library and the cause, and no later reply changes
/// it.
pub proof fn law_failed_fetch_ends_resolution(
    s: ResolutionView,
    cause: Seq<char>,
    later: Seq<ReplyView>,
)
    requires
        s.request() is CloneLibrary || s.request() is CheckoutPin,
    ensures
        s.next(ReplyView::Failed { cause }).run(later).request() matches RequestView::Failed {
            error: ErrorView::MaterializationFailed { file, line, name, cause: c },
        } && file == s.plan.file && c == cause && (s.request() matches RequestView::CloneLibrary {
            name: n,
            ..
        } ==> n == name) && (s.request() matches RequestView::CheckoutPin { name: n, .. } ==> n
            == name),
    decreases later.len(),
{
    if later.len() > 0 {
        law_failed_fetch_ends_resolution(s, cause, later.drop_last());
    }
}

/// However the replies fall, the plan stays what it was, no fetch is
/// taken back, and a resolution ends in one of three ways: with the
/// dependencies of the plan, with the error of the plan, or with a library
/// that could not be fetched.
pub proof fn law_resolution_follows_plan(plan: PlanView, replies: Seq<ReplyView>)
    ensures
        ({
            let s = ResolutionView::begin(plan).run(replies);
            &&& s.plan == plan
            &&& s.cursor <= plan.fetches.len()
            &&& (s.failure matches Some(e) ==> e is MaterializationFailed)
            &&& (s.request() matches RequestView::Resolved { dependencies } ==> plan.error is None
                && dependencies == plan.dependencies)
            &&& (s.request() matches RequestView::Failed { error } ==> plan.error == Some(error)
                || error is MaterializationFailed)
        }),
    decreases replies.len(),
{
    if replies.len() > 0 {
        law_resolution_follows_plan(plan, replies.drop_last());
    }
}

/// Where every probe finds its directory, nothing is cloned and nothing is
/// checked out, and the resolution comes to what the plan says: its
/// dependencies, libraries among them, or its error.
pub proof fn law_present_caches_are_kept(plan: PlanView, replies: Seq<ReplyView>)
    requires
        forall|i: int| 0 <= i < replies.len() ==> !(#[trigger] replies[i] is Absent),
    ensures
        ({
            let s = ResolutionView::begin(plan).run(replies);
            &&& s.phase is Probe
            &&& s.failure is None
            &&& !(s.request() is CloneLibrary)
            &&& !(s.request() is CheckoutPin)
            &&& s.finished() ==> s.request() == match plan.error {
                Some(error) => RequestView::Failed { error },
                None => RequestView::Resolved { dependencies: plan.dependencies },
            }
        }),
    decreases replies.len(),
{
    law_resolution_follows_plan(plan, replies);
    if replies.len() > 0 {
        let front = replies.drop_last();
        assert forall|i: int| 0 <= i < front.len() implies !(#[trigger] front[i] is Absent) by {
            assert(front[i] == replies[i]);
        }
        law_present_caches_are_kept(plan, front);
        law_resolution_follows_plan(plan, front);
    }
}

/// A copy of a list of dependencies.
pub fn clone_dependencies(deps: &Vec<ResolvedDependency>) -> (r: Vec<ResolvedDependency>)
    ensures
        r.deep_view() == deps.deep_view(),
{
    let mut r: Vec<ResolvedDependency> = Vec::new();
    let mut i: usize = 0;
    while i < deps.len()
        invariant
            i <= deps.len(),
            r.len() == i,
            forall|j: int| 0 <= j < i ==> r@[j]@ == deps@[j]@,
        decreases deps.len() - i,
    {
        r.push(deps[i].clone());
        i += 1;
    }
    proof {
        assert(r.deep_view() =~= deps.deep_view());
    }
    r
}

/// The resolution of one file, under way.
#[derive(Debug)]
pub struct Resolution {
    plan: ResolutionPlan,
    cursor: usize,
    phase: Phase,
    failure: Option<ResolutionError>,
}

impl View for Resolution {
    type V = ResolutionView;

    closed spec fn view(&self) -> ResolutionView {
        ResolutionView {
            plan: self.plan@,
            cursor: self.cursor as nat,
            phase: self.phase,
            failure: self.failure.deep_view(),
        }
    }
}

impl Resolution {
    /// Sets out to carry out `plan`.
    pub fn begin(plan: ResolutionPlan) -> (r: Self)
        ensures
            r@ == ResolutionView::begin(plan@),
    {
        Resolution { plan, cursor: 0, phase: Phase::Probe, failure: None }
    }

    /// Whether nothing is left to do.
    pub fn is_finished(&self) -> (b: bool)
        ensures
            b == self@.finished(),
    {
        self.failure.is_some() || self.cursor >= self.plan.fetches.len()
    }

    /// What the caller is asked to do next, or what the resolution came
    /// to.
    pub fn request(&self) -> (r: Request)
        ensures
            r@ == self@.request(),
    {
        if let Some(error) = &self.failure {
            return Request::Failed { error: error.clone() };
        }
        if self.cursor >= self.plan.fetches.len() {
            return match &self.plan.error {
                Some(error) => Request::Failed { error: error.clone() },
                None => Request::Resolved {
                    dependencies: clone_dependencies(&self.plan.dependencies),
                },
            };
        }
        match &self.plan.fetches[self.cursor] {
            Fetch::Library { line, name, url, version } => match self.phase {
                Phase::Probe => Request::ProbeCache { name: name.clone() },
                Phase::Clone => Request::CloneLibrary { name: name.clone(), url: url.clone() },
                Phase::Checkout => Request::CheckoutPin {
                    name: name.clone(),
                    version: match version {
                        Some(v) => v.clone(),
                        None => String::new(),
                    },
                },
            },
            Fetch::Local { path } => Request::CopyLocal { path: path.clone() },
            Fetch::Archive { url } => Request::FetchArchive { url: url.clone() },
        }
    }

    /// Takes in how the last request went.
    pub fn reply(&mut self, reply: Reply)
        ensures
            final(self)@ == old(self)@.next(reply@),
    {
        if self.failure.is_some() || self.cursor >= self.plan.fetches.len() {
            return;
        }
        let mut phase = self.phase;
        let mut advance = false;
        let mut failure: Option<ResolutionError> = None;
        match &self.plan.fetches[self.cursor] {
            Fetch::Library { line, name, url, version } => match self.phase {
                Phase::Probe => match reply {
                    Reply::Present => {
                        advance = true;
                    },
                    Reply::Absent => {
                        phase = Phase::Clone;
                    },
                    _ => {},
                },
                Phase::Clone => match reply {
                    Reply::Done => {
                        let pinned = match version {
                            Some(v) => !v.as_str().is_empty(),
                            None => false,
                        };
                        if pinned {
                            phase = Phase::Checkout;
                        } else {
                            advance = true;
                        }
                    },
                    Reply::Failed { cause } => {
                        failure = Some(
                            ResolutionError::MaterializationFailed {
                                file: self.plan.file.clone(),
                                line: *line,
                                name: name.clone(),
                                cause,
                            },
                        );
                    },
                    _ => {},
                },
                Phase::Checkout => match reply {
                    Reply::Done => {
                        advance = true;
                    },
                    Reply::Failed { cause } => {
                        failure = Some(
                            ResolutionError::MaterializationFailed {
                                file: self.plan.file.clone(),
                                line: *line,
                                name: name.clone(),
                                cause,
                            },
                        );
                    },
                    _ => {},
                },
            },
            _ => match reply {
                Reply::Done => {
                    advance = true;
                },
                Reply::Failed { .. } => {
                    advance = true;
                },
                _ => {},
            },
        }
        if advance {
            self.cursor = self.cursor + 1;
            self.phase = Phase::Probe;
        } else {
            self.phase = phase;
            self.failure = failure;
        }
    }
}

} // verus!
