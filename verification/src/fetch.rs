//! The throttled fetch-and-unpack run, as a machine that is told what
//! happened and says what to do next.

use vstd::prelude::*;
use crate::dialog::Dialog;
use crate::disp::ErrorText;
use crate::plan::{target_views, FetchTarget};
use crate::registry::{join_path, path_join};
use crate::report::{
    downloaded,
    downloaded_view,
    failed,
    failed_view,
    fetching,
    fetching_view,
    notice_of,
    pull_failures,
    pull_failures_view,
    Notice,
    NoticeView,
};
use crate::text::chars_of;

verus! {

/// The stage at which the work on a target can fail.
#[derive(Clone, Copy, Debug, PartialEq, Eq, Structural)]
pub enum Stage {
    Network,
    FileCreate,
    FileWrite,
    FileOpen,
    Extract,
}

/// What is to be done next for the target at hand.
#[derive(Clone, Copy, Debug, PartialEq, Eq, Structural)]
pub enum Step {
    /// Wait out the interval.
    Throttle,
    /// Request the archive.
    Fetch,
    /// Create the file for it.
    Create,
    /// Write the archive into the file.
    Write,
    /// Open the file again.
    Open,
    /// Unpack it.
    Unpack,
}

impl Step {
    /// The stage that fails when this step does.
    pub open spec fn stage_spec(self) -> Stage {
        match self {
            Step::Throttle => Stage::Network,
            Step::Fetch => Stage::Network,
            Step::Create => Stage::FileCreate,
            Step::Write => Stage::FileWrite,
            Step::Open => Stage::FileOpen,
            Step::Unpack => Stage::Extract,
        }
    }

    /// The stage that fails when this step does.
    pub fn stage(self) -> (stage: Stage)
        ensures
            stage == self.stage_spec(),
    {
        match self {
            Step::Throttle => Stage::Network,
            Step::Fetch => Stage::Network,
            Step::Create => Stage::FileCreate,
            Step::Write => Stage::FileWrite,
            Step::Open => Stage::FileOpen,
            Step::Unpack => Stage::Extract,
        }
    }
}

/// How the work on one target ended.
#[derive(Clone, Debug, PartialEq, Eq)]
pub enum FetchOutcome {
    Downloaded { file_name: String },
    Failed { stage: Stage, cause: ErrorText },
}

/// The mathematical content of a [`FetchOutcome`].
pub enum OutcomeView {
    Downloaded { file_name: Seq<char> },
    Failed { stage: Stage, message: Seq<char>, detail: Seq<char> },
}

impl View for FetchOutcome {
    type V = OutcomeView;

    open spec fn view(&self) -> OutcomeView {
        match self {
            FetchOutcome::Downloaded { file_name } => OutcomeView::Downloaded {
                file_name: file_name@,
            },
            FetchOutcome::Failed { stage, cause } => OutcomeView::Failed {
                stage: *stage,
                message: cause.message@,
                detail: cause.detail@,
            },
        }
    }
}

/// The contents of a list of outcomes.
pub open spec fn outcome_views(outcomes: Seq<FetchOutcome>) -> Seq<OutcomeView> {
    outcomes.map_values(|o: FetchOutcome| o@)
}

/// The number of failures among `outcomes`.
pub open spec fn failure_count(outcomes: Seq<OutcomeView>) -> nat
    decreases outcomes.len(),
{
    if outcomes.len() == 0 {
        0
    } else {
        failure_count(outcomes.drop_last()) + if outcomes.last() is Failed {
            1nat
        } else {
            0nat
        }
    }
}

/// What the driver of a run is asked to do.
#[derive(Clone, Debug, PartialEq, Eq)]
pub enum Action {
    /// Wait for so many seconds.
    Sleep { seconds: u64 },
    /// Request this address.
    Get { url: String },
    /// Create the file at this path.
    CreateFile { path: String },
    /// Write the body of the response into the file at this path.
    WriteBody { path: String },
    /// Open the file at this path for reading.
    OpenFile { path: String },
    /// Unpack the compressed archive at `path` into the directory `into`.
    Unpack { path: String, into: String },
    /// Nothing is left to do.
    Finish,
}

/// The mathematical content of an [`Action`].
pub enum ActionView {
    Sleep { seconds: u64 },
    Get { url: Seq<char> },
    CreateFile { path: Seq<char> },
    WriteBody { path: Seq<char> },
    OpenFile { path: Seq<char> },
    Unpack { path: Seq<char>, into: Seq<char> },
    Finish,
}

impl View for Action {
    type V = ActionView;

    open spec fn view(&self) -> ActionView {
        match self {
            Action::Sleep { seconds } => ActionView::Sleep { seconds: *seconds },
            Action::Get { url } => ActionView::Get { url: url@ },
            Action::CreateFile { path } => ActionView::CreateFile { path: path@ },
            Action::WriteBody { path } => ActionView::WriteBody { path: path@ },
            Action::OpenFile { path } => ActionView::OpenFile { path: path@ },
            Action::Unpack { path, into } => ActionView::Unpack { path: path@, into: into@ },
            Action::Finish => ActionView::Finish,
        }
    }
}

/// What the driver of a run reports back.
#[derive(Clone, Debug, PartialEq, Eq)]
pub enum Event {
    /// The interval has passed.
    Slept,
    /// The request was answered with success, from this address.
    Response { url: String },
    /// The file has been created.
    Created,
    /// The body has been written.
    Written,
    /// The file has been opened.
    Opened,
    /// The archive has been unpacked.
    Unpacked,
    /// What was asked for could not be done.
    Failed { cause: ErrorText },
}

/// The mathematical content of an [`Event`].
pub enum EventView {
    Slept,
    Response { url: Seq<char> },
    Created,
    Written,
    Opened,
    Unpacked,
    Failed { message: Seq<char>, detail: Seq<char> },
}

impl View for Event {
    type V = EventView;

    open spec fn view(&self) -> EventView {
        match self {
            Event::Slept => EventView::Slept,
            Event::Response { url } => EventView::Response { url: url@ },
            Event::Created => EventView::Created,
            Event::Written => EventView::Written,
            Event::Opened => EventView::Opened,
            Event::Unpacked => EventView::Unpacked,
            Event::Failed { cause } => EventView::Failed {
                message: cause.message@,
                detail: cause.detail@,
            },
        }
    }
}

/// The part of an address behind its last slash; all of it if it has none.
pub open spec fn after_last_slash(url: Seq<char>) -> Seq<char>
    decreases url.len(),
{
    if url.len() == 0 || url.last() == '/' {
        Seq::empty()
    } else {
        after_last_slash(url.drop_last()).push(url.last())
    }
}

/// Behind a slash that no other follows stands the file's name.
pub proof fn lemma_after_last_slash(url: Seq<char>, i: int)
    requires
        0 <= i < url.len(),
        url[i] == '/',
        forall|k: int| i < k < url.len() ==> url[k] != '/',
    ensures
        after_last_slash(url) == url.subrange(i + 1, url.len() as int),
    decreases url.len(),
{
    if url.last() == '/' {
        assert(i == url.len() - 1);
        assert(url.subrange(i + 1, url.len() as int) =~= Seq::<char>::empty());
    } else {
        let rest = url.drop_last();
        assert forall|k: int| i < k < rest.len() implies rest[k] != '/' by {
            assert(rest[k] == url[k]);
        }
        lemma_after_last_slash(rest, i);
        assert(rest.subrange(i + 1, rest.len() as int).push(url.last()) =~= url.subrange(
            i + 1,
            url.len() as int,
        ));
    }
}

/// The name of the file that an address names: the part behind its last
/// slash. An address without a slash names none.
pub fn file_name_of(url: &str) -> (r: Option<String>)
    ensures
        r is Some <==> url@.contains('/'),
        r matches Some(name) ==> name@ == after_last_slash(url@),
{
    let chars = chars_of(url);
    let n = chars.len();
    let mut i: usize = n;
    while i > 0
        invariant
            chars@ == url@,
            n == chars.len(),
            i <= n,
            forall|k: int| i <= k < n ==> url@[k] != '/',
        decreases i,
    {
        if chars[i - 1] == '/' {
            proof {
                lemma_after_last_slash(url@, i - 1);
                assert(url@.contains('/'));
            }
            return Some(url.substring_char(i, n).to_owned());
        }
        i = i - 1;
    }
    None
}

/// The mathematical content of a run.
pub struct RunView {
    /// The addresses to fetch, in order.
    pub urls: Seq<Seq<char>>,
    /// The seconds to wait before each request.
    pub interval: u64,
    /// Where archives are written.
    pub cache_dir: Seq<char>,
    /// Where archives are unpacked.
    pub src_dir: Seq<char>,
    /// Whether the run stops before anything is fetched.
    pub dry_run: bool,
    /// The number of targets that are done with.
    pub position: nat,
    /// What is to be done next for the target at hand.
    pub step: Step,
    /// The name of the file of the target at hand, once it is known.
    pub file_name: Seq<char>,
    /// How each target that is done with ended, in order.
    pub outcomes: Seq<OutcomeView>,
}

impl RunView {
    /// A run that has not begun.
    pub open spec fn fresh(
        urls: Seq<Seq<char>>,
        cache_dir: Seq<char>,
        src_dir: Seq<char>,
        interval: u64,
        dry_run: bool,
    ) -> RunView {
        RunView {
            urls,
            interval,
            cache_dir,
            src_dir,
            dry_run,
            position: 0,
            step: Step::Throttle,
            file_name: Seq::empty(),
            outcomes: Seq::empty(),
        }
    }

    /// Each target that is done with has its outcome, and no other has.
    pub open spec fn well_formed(self) -> bool {
        self.outcomes.len() == self.position <= self.urls.len()
    }

    /// Whether nothing is left to do: in a dry run from the start, else
    /// when every target is done with.
    pub open spec fn finished(self) -> bool {
        self.dry_run || self.position >= self.urls.len()
    }

    /// The address of the target at hand.
    pub open spec fn url(self) -> Seq<char> {
        self.urls[self.position as int]
    }

    /// The path of the file of the target at hand.
    pub open spec fn path(self) -> Seq<char> {
        path_join(self.cache_dir, self.file_name)
    }

    /// The number of targets that failed.
    pub open spec fn failures(self) -> nat {
        failure_count(self.outcomes)
    }

    /// What the driver is asked to do.
    pub open spec fn next_action(self) -> ActionView {
        if self.finished() {
            ActionView::Finish
        } else {
            match self.step {
                Step::Throttle => ActionView::Sleep { seconds: self.interval },
                Step::Fetch => ActionView::Get { url: self.url() },
                Step::Create => ActionView::CreateFile { path: self.path() },
                Step::Write => ActionView::WriteBody { path: self.path() },
                Step::Open => ActionView::OpenFile { path: self.path() },
                Step::Unpack => ActionView::Unpack { path: self.path(), into: self.src_dir },
            }
        }
    }

    /// Whether `event` answers what the driver was asked to do. Waiting
    /// cannot fail; every other step can.
    pub open spec fn expects(self, event: EventView) -> bool {
        !self.finished() && match event {
            EventView::Slept => self.step == Step::Throttle,
            EventView::Response { .. } => self.step == Step::Fetch,
            EventView::Created => self.step == Step::Create,
            EventView::Written => self.step == Step::Write,
            EventView::Opened => self.step == Step::Open,
            EventView::Unpacked => self.step == Step::Unpack,
            EventView::Failed { .. } => self.step != Step::Throttle,
        }
    }

    /// The run at the next step for the same target.
    pub open spec fn moved_to(self, step: Step) -> RunView {
        RunView { step, ..self }
    }

    /// The run when the target at hand is done with: its outcome is
    /// recorded behind the others, and the next target is at hand.
    pub open spec fn settled(self, outcome: OutcomeView) -> RunView {
        RunView {
            position: self.position + 1,
            step: Step::Throttle,
            file_name: Seq::empty(),
            outcomes: self.outcomes.push(outcome),
            ..self
        }
    }

    /// The run after `event`. An event that does not answer what was asked
    /// changes nothing. A failure ends the work on the target at hand, and
    /// on that target alone.
    pub open spec fn advance(self, event: EventView) -> RunView {
        if !self.expects(event) {
            self
        } else {
            match event {
                EventView::Slept => self.moved_to(Step::Fetch),
                EventView::Response { url } => RunView {
                    step: Step::Create,
                    file_name: after_last_slash(url),
                    ..self
                },
                EventView::Created => self.moved_to(Step::Write),
                EventView::Written => self.moved_to(Step::Open),
                EventView::Opened => self.moved_to(Step::Unpack),
                EventView::Unpacked => self.settled(
                    OutcomeView::Downloaded { file_name: self.file_name },
                ),
                EventView::Failed { message, detail } => self.settled(
                    OutcomeView::Failed { stage: self.step.stage_spec(), message, detail },
                ),
            }
        }
    }

    /// What `event` gives to tell the operator: that a fetch begins, that a
    /// target failed and at which stage and why, or that a package is
    /// fetched and unpacked.
    pub open spec fn notice(self, event: EventView) -> Option<NoticeView> {
        if !self.expects(event) {
            None
        } else {
            match event {
                EventView::Slept => Some(fetching_view(1, self.url())),
                EventView::Unpacked => Some(downloaded_view(2, self.file_name)),
                EventView::Failed { message, detail } => Some(
                    failed_view(
                        2,
                        self.step.stage_spec(),
                        self.url(),
                        self.path(),
                        self.file_name,
                        message,
                        detail,
                    ),
                ),
                _ => None,
            }
        }
    }
}

/// No more targets failed than are done with.
pub proof fn lemma_failure_count_bound(outcomes: Seq<OutcomeView>)
    ensures
        failure_count(outcomes) <= outcomes.len(),
    decreases outcomes.len(),
{
    if outcomes.len() > 0 {
        lemma_failure_count_bound(outcomes.drop_last());
    }
}

/// The seconds that a run waits before each request.
pub const THROTTLE_SECONDS: u64 = 1;

/// A run: the targets, how far it has come, and how each target that is
/// done with ended.
#[derive(Clone, Debug, PartialEq, Eq)]
pub struct Orchestrator {
    targets: Vec<FetchTarget>,
    interval: u64,
    cache_dir: String,
    src_dir: String,
    dry_run: bool,
    position: usize,
    step: Step,
    file_name: String,
    path: String,
    outcomes: Vec<FetchOutcome>,
    failures: usize,
}

impl View for Orchestrator {
    type V = RunView;

    closed spec fn view(&self) -> RunView {
        RunView {
            urls: target_views(self.targets@),
            interval: self.interval,
            cache_dir: self.cache_dir@,
            src_dir: self.src_dir@,
            dry_run: self.dry_run,
            position: self.position as nat,
            step: self.step,
            file_name: self.file_name@,
            outcomes: outcome_views(self.outcomes@),
        }
    }
}

impl Orchestrator {
    /// What holds of every run: each target that is done with has its
    /// outcome, the failures are counted, and the file's path is known as
    /// soon as its name is.
    pub closed spec fn wf(&self) -> bool {
        &&& self@.well_formed()
        &&& self.failures == self@.failures()
        &&& match self.step {
            Step::Throttle => self.file_name@ == Seq::<char>::empty(),
            Step::Fetch => self.file_name@ == Seq::<char>::empty(),
            _ => self.path@ == self@.path(),
        }
    }

    /// A run that has not begun. In a dry run nothing will be asked of the
    /// driver.
    pub fn new(
        targets: Vec<FetchTarget>,
        cache_dir: String,
        src_dir: String,
        interval: u64,
        dry_run: bool,
    ) -> (run: Orchestrator)
        ensures
            run.wf(),
            run@ == RunView::fresh(target_views(targets@), cache_dir@, src_dir@, interval, dry_run),
    {
        let run = Orchestrator {
            targets,
            interval,
            cache_dir,
            src_dir,
            dry_run,
            position: 0,
            step: Step::Throttle,
            file_name: String::new(),
            path: String::new(),
            outcomes: Vec::new(),
            failures: 0,
        };
        proof {
            assert(outcome_views(run.outcomes@) =~= Seq::<OutcomeView>::empty());
        }
        run
    }

    /// Whether nothing is left to do.
    pub fn is_finished(&self) -> (done: bool)
        ensures
            done == self@.finished(),
    {
        self.dry_run || self.position >= self.targets.len()
    }

    /// The number of targets that failed.
    pub fn failures(&self) -> (count: usize)
        requires
            self.wf(),
        ensures
            count == self@.failures(),
    {
        self.failures
    }

    /// How each target that is done with ended, in order.
    pub fn outcomes(&self) -> (outcomes: &Vec<FetchOutcome>)
        ensures
            outcome_views(outcomes@) == self@.outcomes,
    {
        &self.outcomes
    }

    /// What the driver is to do next.
    pub fn next_action(&self) -> (action: Action)
        requires
            self.wf(),
        ensures
            action@ == self@.next_action(),
    {
        if self.is_finished() {
            return Action::Finish;
        }
        match self.step {
            Step::Throttle => Action::Sleep { seconds: self.interval },
            Step::Fetch => Action::Get { url: self.targets[self.position].url.clone() },
            Step::Create => Action::CreateFile { path: self.path.clone() },
            Step::Write => Action::WriteBody { path: self.path.clone() },
            Step::Open => Action::OpenFile { path: self.path.clone() },
            Step::Unpack => Action::Unpack {
                path: self.path.clone(),
                into: self.src_dir.clone(),
            },
        }
    }

    /// Records how the target at hand ended and turns to the next one.
    fn settle(&mut self, outcome: FetchOutcome)
        requires
            old(self).wf(),
            !old(self)@.finished(),
        ensures
            final(self).wf(),
            final(self)@ == old(self)@.settled(outcome@),
    {
        let total = self.targets.len();
        proof {
            lemma_failure_count_bound(self@.outcomes);
            assert(self@.urls.len() == total);
            assert(self.position < total);
            assert(self.failures <= self.position);
            assert(self@.outcomes.push(outcome@).drop_last() =~= self@.outcomes);
            assert(outcome_views(self.outcomes@.push(outcome)) =~= self@.outcomes.push(outcome@));
        }
        match &outcome {
            FetchOutcome::Failed { .. } => {
                self.failures = self.failures + 1;
            },
            FetchOutcome::Downloaded { .. } => {},
        }
        self.outcomes.push(outcome);
        self.position = self.position + 1;
        self.step = Step::Throttle;
        self.file_name = String::new();
        self.path = String::new();
    }

    /// Takes in what the driver reports and gives what there is to tell the
    /// operator of it.
    ///
    /// An event that answers what was asked moves the run on: to the next
    /// step for the target at hand, or, when the target is unpacked or
    /// anything failed, to the next target, with the outcome recorded. Any
    /// other event changes nothing and gives no notice. The address of a
    /// response must name a file, that is, hold a slash.
    pub fn advance(&mut self, event: Event) -> (notice: Option<Notice>)
        requires
            old(self).wf(),
            event matches Event::Response { url } ==> url@.contains('/'),
        ensures
            final(self).wf(),
            final(self)@ == old(self)@.advance(event@),
            notice_of(notice) == old(self)@.notice(event@),
            notice matches Some(notice) ==> notice@.fits(),
    {
        if self.is_finished() {
            return None;
        }
        let report = Dialog::raw_with_indent(1);
        let beneath = report.sub_dialog();
        match event {
            Event::Slept => {
                if self.step == Step::Throttle {
                    self.step = Step::Fetch;
                    Some(fetching(&report, &self.targets[self.position].url))
                } else {
                    None
                }
            },
            Event::Response { url } => {
                if self.step == Step::Fetch {
                    match file_name_of(url.as_str()) {
                        Some(name) => {
                            self.path = join_path(self.cache_dir.as_str(), name.as_str());
                            self.file_name = name;
                            self.step = Step::Create;
                        },
                        None => {
                            proof {
                                assert(false);
                            }
                        },
                    }
                }
                None
            },
            Event::Created => {
                if self.step == Step::Create {
                    self.step = Step::Write;
                }
                None
            },
            Event::Written => {
                if self.step == Step::Write {
                    self.step = Step::Open;
                }
                None
            },
            Event::Opened => {
                if self.step == Step::Open {
                    self.step = Step::Unpack;
                }
                None
            },
            Event::Unpacked => {
                if self.step == Step::Unpack {
                    let notice = downloaded(&beneath, &self.file_name);
                    let file_name = self.file_name.clone();
                    self.settle(FetchOutcome::Downloaded { file_name });
                    Some(notice)
                } else {
                    None
                }
            },
            Event::Failed { cause } => {
                if self.step != Step::Throttle {
                    let stage = self.step.stage();
                    let notice = failed(
                        &beneath,
                        stage,
                        &self.targets[self.position].url,
                        &self.path,
                        &self.file_name,
                        &cause,
                    );
                    self.settle(FetchOutcome::Failed { stage, cause });
                    Some(notice)
                } else {
                    None
                }
            },
        }
    }

    /// The warning that ends a run in which targets failed; none if none
    /// did.
    pub fn summary(&self) -> (notice: Option<Notice>)
        requires
            self.wf(),
        ensures
            notice_of(notice) == pull_failures_view(1, self@.failures()),
            notice matches Some(notice) ==> notice@.fits(),
    {
        let report = Dialog::raw_with_indent(1);
        pull_failures(&report, self.failures)
    }
}

/// The run after a series of events.
pub open spec fn state_after(run: RunView, events: Seq<EventView>) -> RunView
    decreases events.len(),
{
    if events.len() == 0 {
        run
    } else {
        state_after(run, events.drop_last()).advance(events.last())
    }
}

/// What the driver is asked to do after the first `k` of `events`.
pub open spec fn action_at(run: RunView, events: Seq<EventView>, k: int) -> ActionView {
    state_after(run, events.take(k)).next_action()
}

/// Whether the driver answers each time what it was asked to do.
pub open spec fn driver_answers(run: RunView, events: Seq<EventView>) -> bool {
    forall|k: int|
        0 <= k < events.len() ==> (#[trigger] state_after(run, events.take(k))).expects(events[k])
}

/// An event leaves a run well formed, keeps what the run was set up with,
/// and keeps the outcomes that were recorded before it.
pub proof fn lemma_advance_keeps(run: RunView, event: EventView)
    requires
        run.well_formed(),
    ensures
        run.advance(event).well_formed(),
        run.advance(event).urls == run.urls,
        run.advance(event).interval == run.interval,
        run.advance(event).cache_dir == run.cache_dir,
        run.advance(event).src_dir == run.src_dir,
        run.advance(event).dry_run == run.dry_run,
        run.advance(event).position >= run.position,
        run.outcomes.is_prefix_of(run.advance(event).outcomes),
{
}

/// Whatever is reported to a run, it stays well formed, keeps what it was
/// set up with, and keeps the outcomes that were recorded: none is ever
/// changed or taken back.
pub proof fn lemma_run_keeps(run: RunView, events: Seq<EventView>)
    requires
        run.well_formed(),
    ensures
        state_after(run, events).well_formed(),
        state_after(run, events).urls == run.urls,
        state_after(run, events).interval == run.interval,
        state_after(run, events).cache_dir == run.cache_dir,
        state_after(run, events).src_dir == run.src_dir,
        state_after(run, events).dry_run == run.dry_run,
        state_after(run, events).position >= run.position,
        run.outcomes.is_prefix_of(state_after(run, events).outcomes),
    decreases events.len(),
{
    if events.len() > 0 {
        lemma_run_keeps(run, events.drop_last());
        lemma_advance_keeps(state_after(run, events.drop_last()), events.last());
    }
}

/// A failure, at whatever step, ends the work on the target at hand and on
/// no other: the outcomes recorded before stay as they are, the failure is
/// recorded behind them with its stage, and if targets are left the run
/// turns to the next one, beginning with its wait.
pub proof fn lemma_failure_is_isolated(run: RunView, message: Seq<char>, detail: Seq<char>)
    requires
        run.well_formed(),
        !run.finished(),
        run.step != Step::Throttle,
    ensures
        ({
            let after = run.advance(EventView::Failed { message, detail });
            &&& after.outcomes == run.outcomes.push(
                OutcomeView::Failed { stage: run.step.stage_spec(), message, detail },
            )
            &&& after.position == run.position + 1
            &&& after.failures() == run.failures() + 1
            &&& after.urls == run.urls
            &&& after.position < after.urls.len() ==> after.next_action() == (ActionView::Sleep {
                seconds: run.interval,
            })
        }),
{
    let after = run.advance(EventView::Failed { message, detail });
    assert(after.outcomes.drop_last() =~= run.outcomes);
}

/// In a run whose driver answers each time what it was asked to do, no
/// request is made but right after the wait of the full interval: between
/// any two requests lies the wait that precedes the second.
pub proof fn lemma_requests_are_throttled(run: RunView, events: Seq<EventView>, k: int)
    requires
        run.well_formed(),
        run.step == Step::Throttle,
        driver_answers(run, events),
        0 <= k <= events.len(),
        action_at(run, events, k) is Get,
    ensures
        k > 0,
        action_at(run, events, k - 1) == (ActionView::Sleep { seconds: run.interval }),
{
    if k == 0 {
        assert(events.take(0) =~= Seq::<EventView>::empty());
    } else {
        let before = state_after(run, events.take(k - 1));
        assert(events.take(k).drop_last() =~= events.take(k - 1));
        assert(events.take(k).last() == events[k - 1]);
        assert(before.expects(events[k - 1]));
        lemma_run_keeps(run, events.take(k - 1));
    }
}

/// A dry run fetches nothing: whatever is reported to it, it asks nothing
/// of the driver, and so never a request.
pub proof fn lemma_dry_run_fetches_nothing(run: RunView, events: Seq<EventView>)
    requires
        run.dry_run,
    ensures
        state_after(run, events) == run,
        state_after(run, events).next_action() is Finish,
    decreases events.len(),
{
    if events.len() > 0 {
        lemma_dry_run_fetches_nothing(run, events.drop_last());
    }
}

/// A run whose driver answers what it is asked, and whose steps all
/// succeed, is through with a target after six events.
pub proof fn lemma_target_succeeds(run: RunView, url: Seq<char>)
    requires
        run.well_formed(),
        !run.finished(),
        run.step == Step::Throttle,
    ensures
        ({
            let after = run.advance(EventView::Slept).advance(
                EventView::Response { url },
            ).advance(EventView::Created).advance(EventView::Written).advance(
                EventView::Opened,
            ).advance(EventView::Unpacked);
            &&& after.outcomes == run.outcomes.push(
                OutcomeView::Downloaded { file_name: after_last_slash(url) },
            )
            &&& after.position == run.position + 1
            &&& after.failures() == run.failures()
        }),
{
    let after = run.advance(EventView::Slept).advance(EventView::Response { url }).advance(
        EventView::Created,
    ).advance(EventView::Written).advance(EventView::Opened).advance(EventView::Unpacked);
    assert(after.outcomes.drop_last() =~= run.outcomes);
}

/// How far the work on a target has come.
pub open spec fn step_rank(step: Step) -> nat {
    match step {
        Step::Throttle => 0,
        Step::Fetch => 1,
        Step::Create => 2,
        Step::Write => 3,
        Step::Open => 4,
        Step::Unpack => 5,
    }
}

/// How far a run has come: the targets that are done with count six each,
/// the steps taken for the target at hand one each.
pub open spec fn progress(run: RunView) -> nat {
    run.position * 6 + step_rank(run.step)
}

/// An event that answers what was asked moves the run forward.
pub proof fn lemma_answer_makes_progress(run: RunView, event: EventView)
    requires
        run.expects(event),
    ensures
        progress(run.advance(event)) > progress(run),
{
}

/// A run whose driver answers each time what it was asked moves forward
/// with every event.
pub proof fn lemma_progress_along(run: RunView, events: Seq<EventView>, k: int, l: int)
    requires
        driver_answers(run, events),
        0 <= k <= l <= events.len(),
    ensures
        progress(state_after(run, events.take(l))) >= progress(state_after(run, events.take(k)))
            + (l - k),
    decreases l - k,
{
    if k < l {
        lemma_progress_along(run, events, k, l - 1);
        let before = state_after(run, events.take(l - 1));
        assert(events.take(l).drop_last() =~= events.take(l - 1));
        assert(events.take(l).last() == events[l - 1]);
        assert(before.expects(events[l - 1]));
        lemma_answer_makes_progress(before, events[l - 1]);
    }
}

/// No target is tried again: of two requests in a run whose driver answers
/// each time what it was asked, the later is for a later target.
pub proof fn lemma_no_target_is_retried(run: RunView, events: Seq<EventView>, k: int, l: int)
    requires
        driver_answers(run, events),
        0 <= k < l <= events.len(),
        action_at(run, events, k) is Get,
        action_at(run, events, l) is Get,
    ensures
        state_after(run, events.take(l)).position > state_after(run, events.take(k)).position,
{
    lemma_progress_along(run, events, k, l);
}

} // verus!
