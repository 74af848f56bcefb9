use crate::outcome::{ErrV, StateV, TargetState, UploadError, UploadMode};
use vstd::prelude::*;

verus! {

/// Fixed ceiling on simultaneously open files and in-flight requests: however
/// long the batch, at most this many targets hold a slot at once.
pub const CONCURRENCY_LIMIT: usize = 100;

/// Lifecycle of the one aggregate request of a directory-wrap batch.
#[derive(Debug)]
pub enum WrapState {
    NotStarted,
    Requested,
    Responded(String),
    Failed(String),
}

/// Ghost mirror of `WrapState`.
pub enum WrapV {
    NotStarted,
    Requested,
    Responded(Seq<char>),
    Failed(Seq<char>),
}

impl View for WrapState {
    type V = WrapV;

    open spec fn view(&self) -> WrapV {
        match self {
            WrapState::NotStarted => WrapV::NotStarted,
            WrapState::Requested => WrapV::Requested,
            WrapState::Responded(b) => WrapV::Responded(b@),
            WrapState::Failed(c) => WrapV::Failed(c@),
        }
    }
}

/// Requests attributable to the aggregate directory-wrap request: none before
/// it is issued, one from then on.
pub open spec fn wrap_requests(w: WrapV) -> nat {
    if w is NotStarted {
        0
    } else {
        1
    }
}

/// Element-wise ghost view of a target-state vector.
pub open spec fn views_of_states(v: Seq<TargetState>) -> Seq<StateV> {
    v.map_values(|t: TargetState| t@)
}

/// Element-wise ghost view of a string vector.
pub open spec fn views_of_strings(v: Seq<String>) -> Seq<Seq<char>> {
    v.map_values(|s: String| s@)
}

/// Element-wise ghost view of an error vector.
pub open spec fn views_of_errors(v: Seq<UploadError>) -> Seq<ErrV> {
    v.map_values(|e: UploadError| e@)
}

pub open spec fn count_pending(s: Seq<StateV>) -> nat
    decreases s.len(),
{
    if s.len() == 0 {
        0
    } else {
        count_pending(s.drop_last()) + (if s.last() is Pending {
            1nat
        } else {
            0nat
        })
    }
}

pub open spec fn count_in_flight(s: Seq<StateV>) -> nat
    decreases s.len(),
{
    if s.len() == 0 {
        0
    } else {
        count_in_flight(s.drop_last()) + (if s.last() is InFlight {
            1nat
        } else {
            0nat
        })
    }
}

pub open spec fn count_opened(s: Seq<StateV>) -> nat
    decreases s.len(),
{
    if s.len() == 0 {
        0
    } else {
        count_opened(s.drop_last()) + (if s.last() is Opened {
            1nat
        } else {
            0nat
        })
    }
}

pub open spec fn count_completed(s: Seq<StateV>) -> nat
    decreases s.len(),
{
    if s.len() == 0 {
        0
    } else {
        count_completed(s.drop_last()) + (if s.last() is Completed {
            1nat
        } else {
            0nat
        })
    }
}

pub open spec fn count_open_failed(s: Seq<StateV>) -> nat
    decreases s.len(),
{
    if s.len() == 0 {
        0
    } else {
        count_open_failed(s.drop_last()) + (if s.last() is OpenFailed {
            1nat
        } else {
            0nat
        })
    }
}

pub open spec fn count_request_failed(s: Seq<StateV>) -> nat
    decreases s.len(),
{
    if s.len() == 0 {
        0
    } else {
        count_request_failed(s.drop_last()) + (if s.last() is RequestFailed {
            1nat
        } else {
            0nat
        })
    }
}

/// Targets that got as far as issuing their own HTTP request, whatever its
/// outcome: every terminal per-file state past a successful open.
pub open spec fn count_attempted(s: Seq<StateV>) -> nat {
    count_completed(s) + count_request_failed(s)
}

/// A target state that no further event can change.
pub open spec fn is_terminal(t: StateV) -> bool {
    !(t is Pending) && !(t is InFlight)
}

/// The multi-file result list: the response bodies of the targets whose open
/// and upload both succeeded, in target order; no other target contributes.
pub open spec fn success_bodies(s: Seq<StateV>) -> Seq<Seq<char>>
    decreases s.len(),
{
    if s.len() == 0 {
        Seq::empty()
    } else {
        let rest = success_bodies(s.drop_last());
        match s.last() {
            StateV::Completed(b) => rest.push(b),
            _ => rest,
        }
    }
}

/// The error report: one file-open error per target whose open failed and one
/// transport error per target whose request failed, each tagged with the
/// target's own path, in target order.
pub open spec fn errors_of(paths: Seq<Seq<char>>, s: Seq<StateV>) -> Seq<ErrV>
    recommends
        paths.len() == s.len(),
    decreases s.len(),
{
    if s.len() == 0 {
        Seq::empty()
    } else {
        let rest = errors_of(paths.drop_last(), s.drop_last());
        match s.last() {
            StateV::OpenFailed(c) => rest.push(ErrV::FileOpen { path: paths.last(), cause: c }),
            StateV::RequestFailed(c) => rest.push(
                ErrV::Transport { path: paths.last(), cause: c },
            ),
            _ => rest,
        }
    }
}

proof fn lemma_counts_update(s: Seq<StateV>, i: int, v: StateV)
    requires
        0 <= i < s.len(),
    ensures
        count_pending(s.update(i, v)) + (if s[i] is Pending {
            1nat
        } else {
            0nat
        }) == count_pending(s) + (if v is Pending {
            1nat
        } else {
            0nat
        }),
        count_in_flight(s.update(i, v)) + (if s[i] is InFlight {
            1nat
        } else {
            0nat
        }) == count_in_flight(s) + (if v is InFlight {
            1nat
        } else {
            0nat
        }),
        count_opened(s.update(i, v)) + (if s[i] is Opened {
            1nat
        } else {
            0nat
        }) == count_opened(s) + (if v is Opened {
            1nat
        } else {
            0nat
        }),
        count_completed(s.update(i, v)) + (if s[i] is Completed {
            1nat
        } else {
            0nat
        }) == count_completed(s) + (if v is Completed {
            1nat
        } else {
            0nat
        }),
        count_open_failed(s.update(i, v)) + (if s[i] is OpenFailed {
            1nat
        } else {
            0nat
        }) == count_open_failed(s) + (if v is OpenFailed {
            1nat
        } else {
            0nat
        }),
        count_request_failed(s.update(i, v)) + (if s[i] is RequestFailed {
            1nat
        } else {
            0nat
        }) == count_request_failed(s) + (if v is RequestFailed {
            1nat
        } else {
            0nat
        }),
    decreases s.len(),
{
    let t = s.update(i, v);
    if i == s.len() - 1 {
        assert(t.drop_last() =~= s.drop_last());
    } else {
        assert(t.drop_last() =~= s.drop_last().update(i, v));
        assert(t.last() == s.last());
        lemma_counts_update(s.drop_last(), i, v);
    }
}

/// The six per-target states are exhaustive and mutually exclusive, so their
/// counts partition the batch.
proof fn lemma_counts_partition(s: Seq<StateV>)
    ensures
        count_pending(s) + count_in_flight(s) + count_opened(s) + count_completed(s)
            + count_open_failed(s) + count_request_failed(s) == s.len(),
    decreases s.len(),
{
    if s.len() > 0 {
        lemma_counts_partition(s.drop_last());
    }
}

proof fn lemma_in_flight_zero(s: Seq<StateV>)
    ensures
        (count_in_flight(s) == 0) <==> (forall|i: int|
            0 <= i < s.len() ==> !((#[trigger] s[i]) is InFlight)),
    decreases s.len(),
{
    if s.len() > 0 {
        lemma_in_flight_zero(s.drop_last());
        assert(forall|i: int| 0 <= i < s.len() - 1 ==> s.drop_last()[i] == s[i]);
        assert(s.last() == s[s.len() - 1]);
    }
}

proof fn lemma_opened_zero(s: Seq<StateV>)
    ensures
        (count_opened(s) == 0) <==> (forall|i: int|
            0 <= i < s.len() ==> !((#[trigger] s[i]) is Opened)),
    decreases s.len(),
{
    if s.len() > 0 {
        lemma_opened_zero(s.drop_last());
        assert(forall|i: int| 0 <= i < s.len() - 1 ==> s.drop_last()[i] == s[i]);
        assert(s.last() == s[s.len() - 1]);
    }
}

proof fn lemma_all_pending_counts(s: Seq<StateV>)
    requires
        forall|i: int| 0 <= i < s.len() ==> (#[trigger] s[i]) is Pending,
    ensures
        count_in_flight(s) == 0,
        count_opened(s) == 0,
        count_completed(s) == 0,
        count_open_failed(s) == 0,
        count_request_failed(s) == 0,
    decreases s.len(),
{
    if s.len() > 0 {
        assert(forall|i: int| 0 <= i < s.len() - 1 ==> s.drop_last()[i] == s[i]);
        lemma_all_pending_counts(s.drop_last());
        assert(s.last() == s[s.len() - 1]);
    }
}

proof fn lemma_terminal_counts(s: Seq<StateV>)
    requires
        forall|i: int| 0 <= i < s.len() ==> is_terminal(#[trigger] s[i]),
    ensures
        count_pending(s) == 0,
        count_in_flight(s) == 0,
    decreases s.len(),
{
    if s.len() > 0 {
        assert(forall|i: int| 0 <= i < s.len() - 1 ==> s.drop_last()[i] == s[i]);
        lemma_terminal_counts(s.drop_last());
        assert(s.last() == s[s.len() - 1]);
    }
}

proof fn lemma_success_bodies_len(s: Seq<StateV>)
    ensures
        success_bodies(s).len() == count_completed(s),
    decreases s.len(),
{
    if s.len() > 0 {
        lemma_success_bodies_len(s.drop_last());
    }
}

proof fn lemma_errors_len(paths: Seq<Seq<char>>, s: Seq<StateV>)
    requires
        paths.len() == s.len(),
    ensures
        errors_of(paths, s).len() == count_open_failed(s) + count_request_failed(s),
    decreases s.len(),
{
    if s.len() > 0 {
        lemma_errors_len(paths.drop_last(), s.drop_last());
    }
}

/// Concurrency ceiling: in every well-formed coordinator state — `new`
/// establishes well-formedness and every operation preserves it — at most
/// `CONCURRENCY_LIMIT` targets hold a slot, so at most that many files are
/// open and that many requests are in flight at any instant, however large
/// the batch.
pub proof fn lemma_concurrency_bounded(c: &BatchCoordinator)
    requires
        c.wf(),
    ensures
        c.in_flight <= CONCURRENCY_LIMIT,
        count_in_flight(c.states_view()) <= CONCURRENCY_LIMIT as nat,
{
}

/// A directory-wrap batch issues at most one outbound HTTP request ever, and
/// exactly one by the time the batch is done — whatever the number of
/// targets, zero included, and whatever became of each target's open.
pub proof fn lemma_directory_wrap_single_request(c: &BatchCoordinator)
    requires
        c.wf(),
        c.mode is DirectoryWrap,
    ensures
        c.requests_issued <= 1,
        c.batch_done() ==> c.requests_issued == 1,
{
}

/// Per-file modes: once the fan-out is over, the batch has issued exactly one
/// outbound HTTP request per target whose file opened, whatever the outcome
/// of each request; when every open succeeded, that is exactly one request
/// per target.
pub proof fn lemma_per_file_request_count(c: &BatchCoordinator)
    requires
        c.wf(),
        !(c.mode is DirectoryWrap),
        c.fanout_done(),
    ensures
        c.requests_issued as nat + count_open_failed(c.states_view()) == c.num_targets(),
        count_open_failed(c.states_view()) == 0 ==> c.requests_issued == c.num_targets(),
{
    lemma_counts_partition(c.states_view());
    lemma_terminal_counts(c.states_view());
}

/// Every target is accounted for exactly once: after the fan-out of a
/// per-file batch, the result list holds exactly one body per succeeded
/// target, the error report exactly one entry per failed target, and the two
/// together cover the whole batch — nothing is dropped, nothing is counted
/// twice.
pub proof fn lemma_every_target_accounted(c: &BatchCoordinator)
    requires
        c.wf(),
        !(c.mode is DirectoryWrap),
        c.fanout_done(),
    ensures
        success_bodies(c.states_view()).len() == count_completed(c.states_view()),
        errors_of(c.paths_view(), c.states_view()).len() == count_open_failed(c.states_view())
            + count_request_failed(c.states_view()),
        success_bodies(c.states_view()).len() + errors_of(c.paths_view(), c.states_view()).len()
            == c.num_targets(),
{
    lemma_success_bodies_len(c.states_view());
    lemma_errors_len(c.paths_view(), c.states_view());
    lemma_counts_partition(c.states_view());
    lemma_terminal_counts(c.states_view());
}

/// A directory-wrap batch accounts for every target too: once the fan-out is
/// over, each target either contributed one part to the aggregate request
/// (`Opened`) or stands in the error report with a file-open error — and the
/// one request carries exactly one part per successfully opened target.
pub proof fn lemma_directory_wrap_accounted(c: &BatchCoordinator)
    requires
        c.wf(),
        c.mode is DirectoryWrap,
        c.fanout_done(),
    ensures
        count_opened(c.states_view()) + count_open_failed(c.states_view()) == c.num_targets(),
        errors_of(c.paths_view(), c.states_view()).len() == count_open_failed(c.states_view()),
{
    lemma_counts_partition(c.states_view());
    lemma_terminal_counts(c.states_view());
    lemma_errors_len(c.paths_view(), c.states_view());
}

/// Completion events of two distinct targets may be recorded in either order:
/// the per-target states, and with them the aggregated result list, do not
/// depend on the order in which concurrent uploads finish. Re-running a batch
/// whose targets reach the same terminal states therefore yields the same
/// result list, whatever the completion order of each run.
pub proof fn lemma_completion_order_irrelevant(s: Seq<StateV>, i: int, j: int, u: StateV, v: StateV)
    requires
        0 <= i < s.len(),
        0 <= j < s.len(),
        i != j,
    ensures
        s.update(i, u).update(j, v) == s.update(j, v).update(i, u),
        success_bodies(s.update(i, u).update(j, v)) == success_bodies(s.update(j, v).update(i, u)),
{
    assert(s.update(i, u).update(j, v) =~= s.update(j, v).update(i, u));
}

/// Orchestrates one batch: fans the targets out under the concurrency
/// ceiling, records each target's terminal outcome as the driver reports it,
/// and aggregates the results per the batch's mode. The driver performs the
/// actual file and network I/O; every decision — who may start, when the
/// fan-out is over, when the one directory-wrap request is due, what the
/// result list holds — is taken here.
pub struct BatchCoordinator {
    pub mode: UploadMode,
    pub paths: Vec<String>,
    pub states: Vec<TargetState>,
    pub started: usize,
    pub in_flight: usize,
    pub requests_issued: usize,
    pub wrap: WrapState,
}

impl BatchCoordinator {
    pub open spec fn states_view(&self) -> Seq<StateV> {
        views_of_states(self.states@)
    }

    pub open spec fn paths_view(&self) -> Seq<Seq<char>> {
        views_of_strings(self.paths@)
    }

    pub open spec fn num_targets(&self) -> int {
        self.paths@.len() as int
    }

    /// Modes that issue one independent HTTP request per target.
    pub open spec fn per_file_requests(&self) -> bool {
        !(self.mode is DirectoryWrap)
    }

    /// Every target has reached a terminal state: nothing is pending or in
    /// flight any more.
    pub open spec fn fanout_done(&self) -> bool {
        forall|i: int| 0 <= i < self.states_view().len() ==> is_terminal(#[trigger] self.states_view()[i])
    }

    /// The batch is over: the fan-out is done and, in directory-wrap mode,
    /// the one aggregate request has been answered.
    pub open spec fn batch_done(&self) -> bool {
        &&& self.fanout_done()
        &&& (self.mode is DirectoryWrap ==> (self.wrap@ is Responded || self.wrap@ is Failed))
    }

    /// Well-formedness: established by `new` and preserved by every
    /// operation. Ties the exec counters to the per-target states, keeps the
    /// launch prefix dense, bounds the in-flight count by the ceiling, and
    /// confines each mode to its own terminal states and request accounting.
    pub open spec fn wf(&self) -> bool {
        &&& self.states@.len() == self.paths@.len()
        &&& (self.mode is SingleFile ==> self.paths@.len() == 1)
        &&& self.started <= self.paths@.len()
        &&& forall|i: int|
            self.started <= i < self.states_view().len() ==> (#[trigger] self.states_view()[i]) is Pending
        &&& forall|i: int|
            0 <= i < self.started ==> !((#[trigger] self.states_view()[i]) is Pending)
        &&& self.in_flight as nat == count_in_flight(self.states_view())
        &&& self.in_flight <= CONCURRENCY_LIMIT
        &&& (self.mode is DirectoryWrap ==> {
            &&& self.requests_issued as nat == wrap_requests(self.wrap@)
            &&& count_completed(self.states_view()) == 0
            &&& count_request_failed(self.states_view()) == 0
        })
        &&& (self.per_file_requests() ==> {
            &&& self.requests_issued as nat == count_attempted(self.states_view())
            &&& self.wrap@ is NotStarted
            &&& count_opened(self.states_view()) == 0
        })
        &&& (!(self.wrap@ is NotStarted) ==> self.fanout_done())
    }

    /// Accepts the batch: every target starts out pending, no slot is taken,
    /// no request has been issued. Single-file mode carries exactly one
    /// target.
    pub fn new(paths: Vec<String>, mode: UploadMode) -> (r: BatchCoordinator)
        requires
            mode is SingleFile ==> paths@.len() == 1,
        ensures
            r.wf(),
            r.mode == mode,
            r.paths@ == paths@,
            r.states_view() == Seq::new(paths@.len() as nat, |i: int| StateV::Pending),
            r.started == 0,
            r.in_flight == 0,
            r.requests_issued == 0,
            r.wrap@ is NotStarted,
    {
        let n = paths.len();
        let mut states: Vec<TargetState> = Vec::new();
        let mut k: usize = 0;
        while k < n
            invariant
                k <= n,
                states@.len() == k,
                forall|i: int| 0 <= i < k ==> (#[trigger] views_of_states(states@)[i]) is Pending,
            decreases n - k,
        {
            let ghost s0 = states@;
            states.push(TargetState::Pending);
            proof {
                assert(views_of_states(states@) =~= views_of_states(s0).push(StateV::Pending));
            }
            k = k + 1;
        }
        proof {
            lemma_all_pending_counts(views_of_states(states@));
            assert(views_of_states(states@) =~= Seq::new(
                paths@.len() as nat,
                |i: int| StateV::Pending,
            ));
        }
        BatchCoordinator {
            mode,
            paths,
            states,
            started: 0,
            in_flight: 0,
            requests_issued: 0,
            wrap: WrapState::NotStarted,
        }
    }

    /// Grants the next free slot, if a target is still pending and the
    /// ceiling leaves room: the returned index moves from pending to in
    /// flight. Returns nothing when every target has started or the ceiling
    /// is reached — never more than `CONCURRENCY_LIMIT` slots at once.
    pub fn launch(&mut self) -> (r: Option<usize>)
        requires
            old(self).wf(),
        ensures
            final(self).wf(),
            final(self).mode == old(self).mode,
            final(self).paths@ == old(self).paths@,
            final(self).wrap@ == old(self).wrap@,
            final(self).requests_issued == old(self).requests_issued,
            (r is Some) <==> (old(self).started < old(self).num_targets() && old(self).in_flight
                < CONCURRENCY_LIMIT),
            r matches Some(i) ==> {
                &&& i == old(self).started
                &&& (i as int) < old(self).num_targets()
                &&& final(self).states_view() == old(self).states_view().update(
                    i as int,
                    StateV::InFlight,
                )
                &&& final(self).started == old(self).started + 1
                &&& final(self).in_flight == old(self).in_flight + 1
            },
            r is None ==> *final(self) == *old(self),
            final(self).in_flight <= CONCURRENCY_LIMIT,
    {
        if self.started < self.paths.len() && self.in_flight < CONCURRENCY_LIMIT {
            let i = self.started;
            let ghost sv0 = self.states_view();
            proof {
                lemma_counts_update(sv0, i as int, StateV::InFlight);
            }
            self.states[i] = TargetState::InFlight;
            self.started = i + 1;
            self.in_flight = self.in_flight + 1;
            proof {
                assert(self.states_view() =~= sv0.update(i as int, StateV::InFlight));
            }
            Some(i)
        } else {
            None
        }
    }

    /// The driver could not open target `i`'s file: the target ends in
    /// `OpenFailed`, its slot is released, no request is attributed to it,
    /// and no other target is touched.
    pub fn record_open_failure(&mut self, i: usize, cause: String)
        requires
            old(self).wf(),
            (i as int) < old(self).num_targets(),
            old(self).states_view()[i as int] is InFlight,
        ensures
            final(self).wf(),
            final(self).states_view() == old(self).states_view().update(
                i as int,
                StateV::OpenFailed(cause@),
            ),
            final(self).in_flight == old(self).in_flight - 1,
            final(self).requests_issued == old(self).requests_issued,
            final(self).mode == old(self).mode,
            final(self).paths@ == old(self).paths@,
            final(self).wrap@ == old(self).wrap@,
            final(self).started == old(self).started,
    {
        let ghost sv0 = self.states_view();
        let ghost cv = cause@;
        proof {
            lemma_counts_update(sv0, i as int, StateV::OpenFailed(cv));
            lemma_in_flight_zero(sv0);
        }
        self.states[i] = TargetState::OpenFailed(cause);
        proof {
            assert(self.states_view() =~= sv0.update(i as int, StateV::OpenFailed(cv)));
        }
        self.in_flight = self.in_flight - 1;
    }

    /// Directory-wrap only: target `i`'s file opened and its part has been
    /// collected for the one aggregate request; the slot is released.
    pub fn record_opened(&mut self, i: usize)
        requires
            old(self).wf(),
            old(self).mode is DirectoryWrap,
            (i as int) < old(self).num_targets(),
            old(self).states_view()[i as int] is InFlight,
        ensures
            final(self).wf(),
            final(self).states_view() == old(self).states_view().update(i as int, StateV::Opened),
            final(self).in_flight == old(self).in_flight - 1,
            final(self).requests_issued == old(self).requests_issued,
            final(self).mode == old(self).mode,
            final(self).paths@ == old(self).paths@,
            final(self).wrap@ == old(self).wrap@,
            final(self).started == old(self).started,
    {
        let ghost sv0 = self.states_view();
        proof {
            lemma_counts_update(sv0, i as int, StateV::Opened);
            lemma_in_flight_zero(sv0);
        }
        self.states[i] = TargetState::Opened;
        proof {
            assert(self.states_view() =~= sv0.update(i as int, StateV::Opened));
        }
        self.in_flight = self.in_flight - 1;
    }

    /// Per-file modes only: target `i`'s own request came back with `body`.
    /// The target ends in `Completed`, its slot is released, and one more
    /// outbound request is on the books.
    pub fn record_completed(&mut self, i: usize, body: String)
        requires
            old(self).wf(),
            !(old(self).mode is DirectoryWrap),
            (i as int) < old(self).num_targets(),
            old(self).states_view()[i as int] is InFlight,
        ensures
            final(self).wf(),
            final(self).states_view() == old(self).states_view().update(
                i as int,
                StateV::Completed(body@),
            ),
            final(self).in_flight == old(self).in_flight - 1,
            final(self).requests_issued == old(self).requests_issued + 1,
            final(self).mode == old(self).mode,
            final(self).paths@ == old(self).paths@,
            final(self).wrap@ == old(self).wrap@,
            final(self).started == old(self).started,
    {
        let n = self.paths.len();
        let ghost sv0 = self.states_view();
        let ghost bv = body@;
        proof {
            lemma_counts_update(sv0, i as int, StateV::Completed(bv));
            lemma_in_flight_zero(sv0);
            lemma_counts_partition(sv0);
            assert(count_in_flight(sv0) != 0);
            assert(self.requests_issued < n);
        }
        self.states[i] = TargetState::Completed(body);
        proof {
            assert(self.states_view() =~= sv0.update(i as int, StateV::Completed(bv)));
        }
        self.in_flight = self.in_flight - 1;
        self.requests_issued = self.requests_issued + 1;
    }

    /// Per-file modes only: target `i`'s own request was issued and failed.
    /// The target ends in `RequestFailed`, its slot is released, and the
    /// failed request is still on the books.
    pub fn record_request_failure(&mut self, i: usize, cause: String)
        requires
            old(self).wf(),
            !(old(self).mode is DirectoryWrap),
            (i as int) < old(self).num_targets(),
            old(self).states_view()[i as int] is InFlight,
        ensures
            final(self).wf(),
            final(self).states_view() == old(self).states_view().update(
                i as int,
                StateV::RequestFailed(cause@),
            ),
            final(self).in_flight == old(self).in_flight - 1,
            final(self).requests_issued == old(self).requests_issued + 1,
            final(self).mode == old(self).mode,
            final(self).paths@ == old(self).paths@,
            final(self).wrap@ == old(self).wrap@,
            final(self).started == old(self).started,
    {
        let n = self.paths.len();
        let ghost sv0 = self.states_view();
        let ghost cv = cause@;
        proof {
            lemma_counts_update(sv0, i as int, StateV::RequestFailed(cv));
            lemma_in_flight_zero(sv0);
            lemma_counts_partition(sv0);
            assert(count_in_flight(sv0) != 0);
            assert(self.requests_issued < n);
        }
        self.states[i] = TargetState::RequestFailed(cause);
        proof {
            assert(self.states_view() =~= sv0.update(i as int, StateV::RequestFailed(cv)));
        }
        self.in_flight = self.in_flight - 1;
        self.requests_issued = self.requests_issued + 1;
    }

    /// Whether every target has reached a terminal state.
    pub fn fanout_complete(&self) -> (r: bool)
        requires
            self.wf(),
        ensures
            r == self.fanout_done(),
    {
        proof {
            lemma_in_flight_zero(self.states_view());
        }
        self.started == self.paths.len() && self.in_flight == 0
    }

    /// Whether target `i` currently holds a slot.
    pub fn is_in_flight(&self, i: usize) -> (r: bool)
        requires
            (i as int) < self.num_targets(),
            self.wf(),
        ensures
            r == self.states_view()[i as int] is InFlight,
    {
        match &self.states[i] {
            TargetState::InFlight => true,
            _ => false,
        }
    }

    /// Directory-wrap only, once the fan-out is over: the driver is about to
    /// issue the one aggregate request of the batch. Never granted twice.
    pub fn begin_wrap_request(&mut self)
        requires
            old(self).wf(),
            old(self).mode is DirectoryWrap,
            old(self).fanout_done(),
            old(self).wrap@ is NotStarted,
        ensures
            final(self).wf(),
            final(self).wrap@ is Requested,
            final(self).requests_issued == 1,
            final(self).states_view() == old(self).states_view(),
            final(self).mode == old(self).mode,
            final(self).paths@ == old(self).paths@,
            final(self).started == old(self).started,
            final(self).in_flight == old(self).in_flight,
    {
        self.wrap = WrapState::Requested;
        self.requests_issued = self.requests_issued + 1;
    }

    /// Directory-wrap only: the one aggregate request came back with `body`,
    /// the gateway's verbatim answer for the whole batch.
    pub fn record_wrap_response(&mut self, body: String)
        requires
            old(self).wf(),
            old(self).wrap@ is Requested,
        ensures
            final(self).wf(),
            final(self).wrap@ == WrapV::Responded(body@),
            final(self).requests_issued == old(self).requests_issued,
            final(self).states_view() == old(self).states_view(),
            final(self).mode == old(self).mode,
            final(self).paths@ == old(self).paths@,
            final(self).started == old(self).started,
            final(self).in_flight == old(self).in_flight,
    {
        self.wrap = WrapState::Responded(body);
    }

    /// Directory-wrap only: the one aggregate request failed in transport.
    /// Terminal for the batch — there are no retries.
    pub fn record_wrap_failure(&mut self, cause: String)
        requires
            old(self).wf(),
            old(self).wrap@ is Requested,
        ensures
            final(self).wf(),
            final(self).wrap@ == WrapV::Failed(cause@),
            final(self).requests_issued == old(self).requests_issued,
            final(self).states_view() == old(self).states_view(),
            final(self).mode == old(self).mode,
            final(self).paths@ == old(self).paths@,
            final(self).started == old(self).started,
            final(self).in_flight == old(self).in_flight,
    {
        self.wrap = WrapState::Failed(cause);
    }

    /// The aggregate response of a directory-wrap batch, once it has one.
    pub fn wrap_response(&self) -> (r: Option<String>)
        ensures
            match self.wrap@ {
                WrapV::Responded(b) => r matches Some(s) && s@ == b,
                _ => r is None,
            },
    {
        match &self.wrap {
            WrapState::Responded(b) => Some(b.clone()),
            _ => None,
        }
    }

    /// The transport failure of a directory-wrap batch, if its one request
    /// failed.
    pub fn wrap_failure(&self) -> (r: Option<String>)
        ensures
            match self.wrap@ {
                WrapV::Failed(c) => r matches Some(s) && s@ == c,
                _ => r is None,
            },
    {
        match &self.wrap {
            WrapState::Failed(c) => Some(c.clone()),
            _ => None,
        }
    }

    /// The per-file result list: exactly the response bodies of the targets
    /// whose open and upload both succeeded, in target order — every
    /// successful target is present, no failed or unfinished target is.
    pub fn successes(&self) -> (r: Vec<String>)
        ensures
            views_of_strings(r@) == success_bodies(self.states_view()),
            r@.len() == count_completed(self.states_view()),
    {
        let ghost sv = self.states_view();
        let mut out: Vec<String> = Vec::new();
        let mut k: usize = 0;
        while k < self.states.len()
            invariant
                k <= self.states@.len(),
                sv == self.states_view(),
                sv.len() == self.states@.len(),
                views_of_strings(out@) == success_bodies(sv.take(k as int)),
            decreases self.states@.len() - k,
        {
            proof {
                assert(sv.take(k as int + 1).drop_last() =~= sv.take(k as int));
                assert(sv[k as int] == self.states@[k as int]@);
            }
            let ghost o0 = out@;
            match &self.states[k] {
                TargetState::Completed(b) => {
                    out.push(b.clone());
                    proof {
                        assert(views_of_strings(out@) =~= views_of_strings(o0).push(b@));
                    }
                },
                _ => {},
            }
            k = k + 1;
        }
        proof {
            assert(sv.take(sv.len() as int) =~= sv);
            lemma_success_bodies_len(sv);
        }
        out
    }

    /// Single-file mode, once its one target is terminal: the target's own
    /// outcome is the batch result — the response body on success, the one
    /// file-open or transport error otherwise.
    pub fn single_outcome(&self) -> (r: Result<String, UploadError>)
        requires
            self.wf(),
            self.mode is SingleFile,
            self.fanout_done(),
        ensures
            match self.states_view()[0] {
                StateV::Completed(b) => r matches Ok(s) && s@ == b,
                StateV::OpenFailed(c) => r matches Err(e) && e@ == (ErrV::FileOpen {
                    path: self.paths_view()[0],
                    cause: c,
                }),
                StateV::RequestFailed(c) => r matches Err(e) && e@ == (ErrV::Transport {
                    path: self.paths_view()[0],
                    cause: c,
                }),
                _ => false,
            },
    {
        proof {
            lemma_opened_zero(self.states_view());
            assert(self.states_view()[0] == self.states@[0]@);
            assert(self.paths_view()[0] == self.paths@[0]@);
        }
        match &self.states[0] {
            TargetState::Completed(b) => Ok(b.clone()),
            TargetState::OpenFailed(c) => Err(
                UploadError::FileOpen { path: self.paths[0].clone(), cause: c.clone() },
            ),
            TargetState::RequestFailed(c) => Err(
                UploadError::Transport { path: self.paths[0].clone(), cause: c.clone() },
            ),
            _ => vstd::pervasive::unreached(),
        }
    }

    /// The per-target error report: one file-open error per target whose open
    /// failed and one transport error per target whose own request failed,
    /// each tagged with the target's path, in target order. Together with the
    /// result list this accounts for every terminal target.
    pub fn failures(&self) -> (r: Vec<UploadError>)
        requires
            self.wf(),
        ensures
            views_of_errors(r@) == errors_of(self.paths_view(), self.states_view()),
            r@.len() == count_open_failed(self.states_view()) + count_request_failed(
                self.states_view(),
            ),
    {
        let ghost sv = self.states_view();
        let ghost pv = self.paths_view();
        let mut out: Vec<UploadError> = Vec::new();
        let mut k: usize = 0;
        while k < self.states.len()
            invariant
                k <= self.states@.len(),
                sv == self.states_view(),
                pv == self.paths_view(),
                sv.len() == self.states@.len(),
                pv.len() == sv.len(),
                views_of_errors(out@) == errors_of(pv.take(k as int), sv.take(k as int)),
            decreases self.states@.len() - k,
        {
            proof {
                assert(sv.take(k as int + 1).drop_last() =~= sv.take(k as int));
                assert(pv.take(k as int + 1).drop_last() =~= pv.take(k as int));
                assert(sv[k as int] == self.states@[k as int]@);
                assert(pv[k as int] == self.paths@[k as int]@);
            }
            let ghost o0 = out@;
            match &self.states[k] {
                TargetState::OpenFailed(c) => {
                    let e = UploadError::FileOpen { path: self.paths[k].clone(), cause: c.clone() };
                    out.push(e);
                    proof {
                        assert(views_of_errors(out@) =~= views_of_errors(o0).push(
                            ErrV::FileOpen { path: pv[k as int], cause: c@ },
                        ));
                    }
                },
                TargetState::RequestFailed(c) => {
                    let e = UploadError::Transport {
                        path: self.paths[k].clone(),
                        cause: c.clone(),
                    };
                    out.push(e);
                    proof {
                        assert(views_of_errors(out@) =~= views_of_errors(o0).push(
                            ErrV::Transport { path: pv[k as int], cause: c@ },
                        ));
                    }
                },
                _ => {},
            }
            k = k + 1;
        }
        proof {
            assert(sv.take(sv.len() as int) =~= sv);
            assert(pv.take(pv.len() as int) =~= pv);
            lemma_errors_len(pv, sv);
        }
        out
    }
}

} // verus!
