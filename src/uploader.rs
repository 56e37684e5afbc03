use vstd::prelude::*;

use crate::auth::{is_expired_at, is_success, is_success_status, TokenStore};
use crate::config::{base_url_of, UsageConfigStore, BATCH_PATH};
use crate::models::{
    batch_json, batch_views, chunk_plan, BatchView, EncodeError, RequestOutcome, UploadConfig,
    UploadFailureReason, UploadResult, UsageBatch, DEFAULT_CHUNK_BYTE_LIMIT,
    DEFAULT_CHUNK_SESSION_LIMIT,
};
use crate::storage::UsageBatchStore;

verus! {

/// Attempts the retry layer makes per request.
pub const MAX_ATTEMPTS: u32 = 3;

/// Delay before the first retry, in milliseconds.
pub const INITIAL_BACKOFF_MS: u64 = 1_000;

/// Longest delay between retries, in milliseconds.
pub const MAX_BACKOFF_MS: u64 = 10_000;

/// How a status code is classified: `None` for 2xx, else the failure.
pub open spec fn status_failure(status: u16) -> Option<UploadFailureReason> {
    if is_success_status(status) {
        None
    } else if status == 401 {
        Some(UploadFailureReason::Unauthorized)
    } else if status == 408 || (500 <= status <= 504) {
        Some(UploadFailureReason::NetworkError)
    } else {
        Some(UploadFailureReason::ServerError)
    }
}

pub fn classify_status(status: u16) -> (r: Option<UploadFailureReason>)
    ensures
        r == status_failure(status),
{
    if is_success(status) {
        None
    } else if status == 401 {
        Some(UploadFailureReason::Unauthorized)
    } else if status == 408 || (500 <= status && status <= 504) {
        Some(UploadFailureReason::NetworkError)
    } else {
        Some(UploadFailureReason::ServerError)
    }
}

pub open spec fn doubled_backoff(ms: u64) -> u64 {
    if 2 * ms > MAX_BACKOFF_MS {
        MAX_BACKOFF_MS
    } else {
        (2 * ms) as u64
    }
}

/// The delay after `ms`: doubled, capped at ten seconds.
pub fn next_backoff(ms: u64) -> (r: u64)
    ensures
        r == doubled_backoff(ms),
{
    if ms > MAX_BACKOFF_MS / 2 {
        MAX_BACKOFF_MS
    } else {
        ms * 2
    }
}

/// What one attempt of a request came back with.
#[derive(Debug, Clone, Copy, PartialEq, Eq, Structural)]
pub enum AttemptOutcome {
    /// The server answered with this status.
    Response(u16),
    /// The request never got an answer (refused, DNS, timeout).
    TransportError,
}

/// What the retry layer does after an attempt.
#[derive(Debug, Clone, Copy, PartialEq, Eq, Structural)]
pub enum RetryDecision {
    /// Stop with this outcome: `None` for success, else the failure.
    Done(Option<UploadFailureReason>),
    /// Wait this many milliseconds, then try again.
    RetryAfter(u64),
}

/// The retry layer's state across the attempts of one request.
#[derive(Debug, Clone, Copy, PartialEq, Eq, Structural)]
pub struct RetryState {
    pub attempt: u32,
    pub backoff_ms: u64,
}

pub open spec fn retry_spec(s: RetryState, outcome: AttemptOutcome) -> (RetryState, RetryDecision) {
    let attempt = (s.attempt + 1) as u32;
    let retry = (
        RetryState { attempt, backoff_ms: doubled_backoff(s.backoff_ms) },
        RetryDecision::RetryAfter(s.backoff_ms),
    );
    let stay = RetryState { attempt, backoff_ms: s.backoff_ms };
    match outcome {
        AttemptOutcome::Response(status) => match status_failure(status) {
            None => (stay, RetryDecision::Done(None)),
            Some(f) => if attempt < MAX_ATTEMPTS && f == UploadFailureReason::NetworkError {
                retry
            } else {
                (stay, RetryDecision::Done(Some(f)))
            },
        },
        AttemptOutcome::TransportError => if attempt >= MAX_ATTEMPTS {
            (stay, RetryDecision::Done(Some(UploadFailureReason::NetworkError)))
        } else {
            retry
        },
    }
}

impl RetryState {
    pub fn new() -> (r: Self)
        ensures
            r == (RetryState { attempt: 0, backoff_ms: INITIAL_BACKOFF_MS }),
    {
        RetryState { attempt: 0, backoff_ms: INITIAL_BACKOFF_MS }
    }

    /// Decides after an attempt: success and non-transient failures stop at
    /// once; 408, 5xx up to 504 and transport errors are retried with
    /// exponential backoff, three attempts in all.
    pub fn on_attempt(&mut self, outcome: AttemptOutcome) -> (r: RetryDecision)
        requires
            old(self).attempt < MAX_ATTEMPTS,
        ensures
            (*final(self), r) == retry_spec(*old(self), outcome),
    {
        self.attempt = self.attempt + 1;
        let f = match outcome {
            AttemptOutcome::Response(status) => match classify_status(status) {
                None => return RetryDecision::Done(None),
                Some(f) => f,
            },
            AttemptOutcome::TransportError => UploadFailureReason::NetworkError,
        };
        let transient = match outcome {
            AttemptOutcome::Response(_) => f == UploadFailureReason::NetworkError,
            AttemptOutcome::TransportError => true,
        };
        if transient && self.attempt < MAX_ATTEMPTS {
            let wait = self.backoff_ms;
            self.backoff_ms = next_backoff(wait);
            RetryDecision::RetryAfter(wait)
        } else {
            RetryDecision::Done(Some(f))
        }
    }
}

/// The outcome the retry layer hands back once it is done.
pub fn request_outcome(failure: Option<UploadFailureReason>, body: Option<String>) -> (r:
    RequestOutcome)
    ensures
        r.success == failure is None,
        r.failure == failure,
        r.body == body,
{
    RequestOutcome { success: failure.is_none(), failure, body }
}

/// The upload endpoints, or the result of a run that cannot start.
pub fn upload_config(config: &UsageConfigStore) -> (r: Result<UploadConfig, UploadResult>)
    ensures
        r is Err ==> r == Err::<UploadConfig, UploadResult>(
            UploadResult { uploaded_batches: 0, failure_reason: Some(UploadFailureReason::MissingConfig) },
        ),
        r is Err <==> (config.api_base() is None || base_url_of(config.api_base()->0) is None),
        r matches Ok(c) ==> config.api_base() matches Some(b) && base_url_of(b) == Some(c.base_url@)
            && c.batch_url@ == c.base_url@ + BATCH_PATH@,
{
    match config.resolve_upload_config() {
        Ok(c) => Ok(c),
        Err(_) => Err(
            UploadResult { uploaded_batches: 0, failure_reason: Some(UploadFailureReason::MissingConfig) },
        ),
    }
}

/// Why a refresh was asked for.
#[derive(Debug, Clone, Copy, PartialEq, Eq, Structural)]
pub enum PendingRefresh {
    NotAsked,
    Expired,
    Unauthorized,
}

/// What the caller does next in an upload run.
#[derive(Debug)]
pub enum UploadStep {
    /// Post this chunk body with this bearer token through the retry layer.
    Post { body: String, token: String },
    /// Try to refresh the tokens, then report whether it took.
    Refresh,
    /// The run is over.
    Finish(UploadResult),
}

/// What follows a reported outcome.
#[derive(Debug, Clone, Copy, PartialEq, Eq, Structural)]
pub enum FollowUp {
    /// Ask for the next step.
    Continue,
    /// Try to refresh the tokens, then report whether it took.
    Refresh,
    /// The run is over.
    Finish(UploadResult),
}

/// The chunks a queued batch is uploaded as.
pub open spec fn chunks_for(b: BatchView) -> Option<Seq<BatchView>> {
    if b.sessions.len() == 0 {
        Some(seq![b])
    } else {
        chunk_plan(b, 0, true, DEFAULT_CHUNK_SESSION_LIMIT as int, DEFAULT_CHUNK_BYTE_LIMIT as int)
    }
}

/// One single-flight pass over the queue: the head is split into chunks,
/// which are posted in order; the head leaves the queue only once every chunk
/// was accepted.
pub struct UploadRun {
    uploaded: usize,
    chunks: Vec<UsageBatch>,
    chunk_index: usize,
    refreshed: bool,
    pending: PendingRefresh,
    head: Ghost<BatchView>,
    popped: Ghost<Seq<BatchView>>,
}

/// What an upload run has done to the queue: the chunks of the batch in
/// flight, how many of them were accepted, that batch, and the batches the
/// run removed from the queue, oldest first.
pub ghost struct RunView {
    pub chunks: Seq<BatchView>,
    pub delivered: int,
    pub head: BatchView,
    pub popped: Seq<BatchView>,
}

/// One step of a run, from `(s, q)` to `(t, q2)`; `accepted` says whether
/// the step took a 2xx answer to the chunk in flight. Only an accepted
/// answer advances the count of delivered chunks, and only the accepted
/// answer to the last chunk removes the queue head, which is the batch the
/// chunks were made from.
pub open spec fn run_step(
    s: RunView,
    q: Seq<BatchView>,
    t: RunView,
    q2: Seq<BatchView>,
    accepted: bool,
) -> bool {
    if !accepted {
        &&& q2 == q
        &&& t.popped == s.popped
        &&& ((t.chunks == s.chunks && t.head == s.head && t.delivered == s.delivered) || (
        s.chunks.len() == 0 && q.len() > 0 && t.head == q[0] && chunks_for(q[0]) == Some(t.chunks)
            && t.delivered == 0))
    } else {
        &&& s.chunks.len() > 0
        &&& if s.delivered + 1 < s.chunks.len() {
            &&& q2 == q
            &&& t.popped == s.popped
            &&& t.chunks == s.chunks
            &&& t.head == s.head
            &&& t.delivered == s.delivered + 1
        } else {
            &&& t.chunks.len() == 0
            &&& t.delivered == 0
            &&& q.len() > 0 ==> q2 == q.drop_first() && t.popped == s.popped.push(q[0])
            &&& q.len() == 0 ==> q2 == q && t.popped == s.popped
        }
    }
}

/// The run's bookkeeping agrees with the queue it started from.
pub open spec fn run_agrees(s: RunView, q0: Seq<BatchView>, q: Seq<BatchView>) -> bool {
    &&& q0 == s.popped + q
    &&& s.chunks.len() > 0 ==> q.len() > 0 && s.head == q[0] && chunks_for(s.head) == Some(s.chunks)
        && 0 <= s.delivered < s.chunks.len()
}

proof fn lemma_step_agrees(
    s: RunView,
    q: Seq<BatchView>,
    t: RunView,
    q2: Seq<BatchView>,
    accepted: bool,
    q0: Seq<BatchView>,
)
    requires
        run_agrees(s, q0, q),
        run_step(s, q, t, q2, accepted),
    ensures
        run_agrees(t, q0, q2),
        q2 != q ==> accepted && s.delivered + 1 == s.chunks.len() && chunks_for(q[0]) == Some(
            s.chunks,
        ),
{
    if accepted && s.delivered + 1 >= s.chunks.len() && q.len() > 0 {
        assert(s.popped.push(q[0]) + q.drop_first() =~= s.popped + q);
    }
}

proof fn lemma_trace_agrees(
    states: Seq<RunView>,
    queues: Seq<Seq<BatchView>>,
    accepted: Seq<bool>,
    i: int,
)
    requires
        states.len() == accepted.len() + 1,
        queues.len() == accepted.len() + 1,
        states[0].popped.len() == 0,
        states[0].chunks.len() == 0,
        forall|k: int|
            0 <= k < accepted.len() ==> #[trigger] run_step(
                states[k],
                queues[k],
                states[k + 1],
                queues[k + 1],
                accepted[k],
            ),
        0 <= i < states.len(),
    ensures
        run_agrees(states[i], queues[0], queues[i]),
    decreases i,
{
    if i == 0 {
        assert(queues[0] =~= states[0].popped + queues[0]);
    } else {
        lemma_trace_agrees(states, queues, accepted, i - 1);
        let k = i - 1;
        assert(run_step(states[k], queues[k], states[k + 1], queues[k + 1], accepted[k]));
        assert(k + 1 == i);
        lemma_step_agrees(
            states[i - 1],
            queues[i - 1],
            states[i],
            queues[i],
            accepted[i - 1],
            queues[0],
        );
    }
}

/// Over any sequence of steps of one run on a queue nobody else changes, the
/// batches the run removes are the first ones of the starting queue, in
/// order, and what is left is the rest; each removal is the accepted answer
/// to the last chunk of the head's chunks, every earlier chunk having been
/// accepted (the delivered count rises only on accepted answers).
pub proof fn lemma_upload_run_fifo(
    states: Seq<RunView>,
    queues: Seq<Seq<BatchView>>,
    accepted: Seq<bool>,
)
    requires
        states.len() == accepted.len() + 1,
        queues.len() == accepted.len() + 1,
        states[0].popped.len() == 0,
        states[0].chunks.len() == 0,
        forall|i: int|
            0 <= i < accepted.len() ==> #[trigger] run_step(
                states[i],
                queues[i],
                states[i + 1],
                queues[i + 1],
                accepted[i],
            ),
    ensures
        forall|i: int| 0 <= i < states.len() ==> #[trigger] run_agrees(states[i], queues[0], queues[i]),
        queues[accepted.len() as int] == queues[0].skip(states[accepted.len() as int].popped.len() as int),
        states[accepted.len() as int].popped == queues[0].take(
            states[accepted.len() as int].popped.len() as int,
        ),
        forall|i: int|
            0 <= i < accepted.len() && #[trigger] queues[i + 1] != queues[i] ==> accepted[i]
                && states[i].delivered + 1 == states[i].chunks.len() && chunks_for(queues[i][0])
                == Some(states[i].chunks),
{
    assert forall|i: int| 0 <= i < states.len() implies #[trigger] run_agrees(
        states[i],
        queues[0],
        queues[i],
    ) by {
        lemma_trace_agrees(states, queues, accepted, i);
    }
    assert forall|i: int|
        0 <= i < accepted.len() && #[trigger] queues[i + 1] != queues[i] implies accepted[i]
            && states[i].delivered + 1 == states[i].chunks.len() && chunks_for(queues[i][0])
            == Some(states[i].chunks) by {
        lemma_trace_agrees(states, queues, accepted, i);
        assert(run_step(states[i], queues[i], states[i + 1], queues[i + 1], accepted[i]));
        lemma_step_agrees(states[i], queues[i], states[i + 1], queues[i + 1], accepted[i], queues[0]);
    }
    let n = accepted.len() as int;
    lemma_trace_agrees(states, queues, accepted, n);
    let k = states[n].popped.len() as int;
    assert(queues[0].skip(k) =~= queues[n]);
    assert(queues[0].take(k) =~= states[n].popped);
}

impl UploadRun {
    #[verifier::type_invariant]
    spec fn inv(self) -> bool {
        &&& self.chunks@.len() > 0 ==> self.chunk_index < self.chunks@.len()
        &&& self.chunks@.len() == 0 ==> self.chunk_index == 0
    }

    pub closed spec fn uploaded(&self) -> nat {
        self.uploaded as nat
    }

    /// The chunks of the batch being uploaded; empty between batches.
    pub closed spec fn chunks(&self) -> Seq<BatchView> {
        batch_views(self.chunks@)
    }

    /// How many chunks of the current batch were accepted.
    pub closed spec fn delivered(&self) -> int {
        self.chunk_index as int
    }

    pub closed spec fn refreshed(&self) -> bool {
        self.refreshed
    }

    pub closed spec fn pending(&self) -> PendingRefresh {
        self.pending
    }

    pub closed spec fn state(&self) -> RunView {
        RunView {
            chunks: batch_views(self.chunks@),
            delivered: self.chunk_index as int,
            head: self.head@,
            popped: self.popped@,
        }
    }

    pub fn new() -> (r: Self)
        ensures
            r.uploaded() == 0,
            r.chunks().len() == 0,
            r.delivered() == 0,
            !r.refreshed(),
            r.pending() == PendingRefresh::NotAsked,
            r.state().popped.len() == 0,
            r.state().chunks.len() == 0,
    {
        let r = UploadRun {
            uploaded: 0,
            chunks: Vec::new(),
            chunk_index: 0,
            refreshed: false,
            pending: PendingRefresh::NotAsked,
            head: Ghost(arbitrary()),
            popped: Ghost(Seq::empty()),
        };
        assert(batch_views(r.chunks@) =~= Seq::<BatchView>::empty());
        r
    }

    /// Whether a batch is being uploaded (its chunks are loaded).
    pub fn has_batch(&self) -> (r: bool)
        ensures
            r == (self.chunks().len() > 0),
    {
        self.chunks.len() > 0
    }

    fn finish(&self, reason: Option<UploadFailureReason>) -> (r: UploadResult)
        ensures
            r == (UploadResult { uploaded_batches: self.uploaded, failure_reason: reason }),
    {
        UploadResult { uploaded_batches: self.uploaded, failure_reason: reason }
    }

    /// The next step: loads and splits the queue head when no batch is in
    /// progress, then checks the access token and hands out the chunk to post.
    pub fn advance(&mut self, queue: &UsageBatchStore, tokens: &TokenStore, now: i64) -> (r: Result<
        UploadStep,
        EncodeError,
    >)
        ensures
            final(self).uploaded() == old(self).uploaded(),
            run_step(old(self).state(), queue@, final(self).state(), queue@, false),
            old(self).chunks().len() == 0 && queue@.len() == 0 ==> (r matches Ok(
                UploadStep::Finish(res),
            ) && res == (UploadResult { uploaded_batches: old(self).uploaded() as usize, failure_reason: None })),
            old(self).chunks().len() == 0 && queue@.len() > 0 ==> match chunks_for(queue@[0]) {
                None => r is Err,
                Some(cs) => final(self).chunks() == cs && final(self).delivered() == 0
                    && !final(self).refreshed(),
            },
            old(self).chunks().len() > 0 ==> final(self).chunks() == old(self).chunks()
                && final(self).delivered() == old(self).delivered() && final(self).refreshed()
                == old(self).refreshed(),
            final(self).chunks().len() > 0 && r is Ok ==> match tokens.tokens() {
                None => r matches Ok(UploadStep::Finish(res)) && res == (UploadResult {
                    uploaded_batches: old(self).uploaded() as usize,
                    failure_reason: Some(UploadFailureReason::MissingToken),
                }),
                Some(t) => if is_expired_at(t, now) {
                    if final(self).refreshed() {
                        r matches Ok(UploadStep::Finish(res)) && res == (UploadResult {
                            uploaded_batches: old(self).uploaded() as usize,
                            failure_reason: Some(UploadFailureReason::TokenExpired),
                        })
                    } else {
                        r matches Ok(UploadStep::Refresh) && final(self).pending()
                            == PendingRefresh::Expired
                    }
                } else {
                    r matches Ok(UploadStep::Post { body, token }) && token == t.access_token
                        && batch_json(final(self).chunks()[final(self).delivered()]) == Some(body@)
                },
            },
            final(self).chunks().len() > 0 && tokens.tokens() is Some && !is_expired_at(
                tokens.tokens()->0,
                now,
            ) ==> (r is Err <==> batch_json(final(self).chunks()[final(self).delivered()]) is None),
            r is Err ==> (old(self).chunks().len() == 0 && queue@.len() > 0 && chunks_for(queue@[0])
                is None) || (final(self).chunks().len() > 0 && tokens.tokens() is Some
                && !is_expired_at(tokens.tokens()->0, now) && batch_json(
                final(self).chunks()[final(self).delivered()],
            ) is None),
    {
        proof {
            use_type_invariant(&*self);
        }
        if self.chunks.len() == 0 {
            let head = match queue.peek() {
                Some(b) => b,
                None => return Ok(UploadStep::Finish(self.finish(None))),
            };
            let chunks = if head.sessions.len() == 0 {
                let mut v: Vec<UsageBatch> = Vec::new();
                v.push(head);
                assert(batch_views(v@) =~= seq![queue@[0]]);
                v
            } else {
                match head.chunked(DEFAULT_CHUNK_SESSION_LIMIT, DEFAULT_CHUNK_BYTE_LIMIT) {
                    Ok(cs) => cs,
                    Err(e) => return Err(e),
                }
            };
            assert(batch_views(chunks@).len() > 0);
            self.chunks = chunks;
            self.chunk_index = 0;
            self.refreshed = false;
            self.head = Ghost(queue@[0]);
        }
        let token = match tokens.access_token() {
            Some(t) => t,
            None => {
                return Ok(UploadStep::Finish(self.finish(Some(UploadFailureReason::MissingToken))));
            },
        };
        if tokens.is_access_token_expired(now) {
            if !self.refreshed {
                self.pending = PendingRefresh::Expired;
                return Ok(UploadStep::Refresh);
            }
            return Ok(UploadStep::Finish(self.finish(Some(UploadFailureReason::TokenExpired))));
        }
        let body = match self.chunks[self.chunk_index].to_json_string() {
            Ok(b) => b,
            Err(e) => return Err(e),
        };
        Ok(UploadStep::Post { body, token })
    }

    /// Takes the result of a refresh asked for by `advance` or `on_posted`.
    /// A refresh that took allows the step to be retried; one that failed
    /// ends the run (and clears the tokens after a rejected post).
    pub fn on_refreshed(&mut self, ok: bool, tokens: &mut TokenStore) -> (r: FollowUp)
        ensures
            final(self).uploaded() == old(self).uploaded(),
            final(self).state() == old(self).state(),
            final(self).chunks() == old(self).chunks(),
            final(self).delivered() == old(self).delivered(),
            final(self).pending() == PendingRefresh::NotAsked,
            ok ==> r == FollowUp::Continue && final(self).refreshed(),
            !ok && old(self).pending() == PendingRefresh::Unauthorized ==> r == FollowUp::Finish(
                UploadResult {
                    uploaded_batches: old(self).uploaded() as usize,
                    failure_reason: Some(UploadFailureReason::Unauthorized),
                },
            ) && final(tokens).tokens() is None,
            !ok && old(self).pending() != PendingRefresh::Unauthorized ==> r == FollowUp::Finish(
                UploadResult {
                    uploaded_batches: old(self).uploaded() as usize,
                    failure_reason: Some(UploadFailureReason::TokenExpired),
                },
            ) && final(tokens).tokens() == old(tokens).tokens(),
            ok ==> final(tokens).tokens() == old(tokens).tokens(),
    {
        proof {
            use_type_invariant(&*self);
        }
        let pending = self.pending;
        self.pending = PendingRefresh::NotAsked;
        if ok {
            self.refreshed = true;
            return FollowUp::Continue;
        }
        match pending {
            PendingRefresh::Unauthorized => {
                tokens.clear();
                FollowUp::Finish(self.finish(Some(UploadFailureReason::Unauthorized)))
            },
            _ => FollowUp::Finish(self.finish(Some(UploadFailureReason::TokenExpired))),
        }
    }

    /// Takes the outcome of posting the current chunk (`None` for 2xx). An
    /// accepted chunk advances the run; once every chunk of the batch was
    /// accepted the batch leaves the queue, and only then. A 401 asks for one
    /// refresh per chunk; any other failure ends the run with the batch kept.
    pub fn on_posted(
        &mut self,
        outcome: Option<UploadFailureReason>,
        queue: &mut UsageBatchStore,
        tokens: &mut TokenStore,
    ) -> (r: FollowUp)
        requires
            old(self).chunks().len() > 0,
        ensures
            run_step(old(self).state(), old(queue)@, final(self).state(), final(queue)@, outcome is None),
            outcome is None && old(self).delivered() + 1 == old(self).chunks().len() ==> {
                &&& r == FollowUp::Continue
                &&& final(queue)@ == (if old(queue)@.len() > 0 {
                    old(queue)@.drop_first()
                } else {
                    old(queue)@
                })
                &&& final(self).chunks().len() == 0
                &&& final(self).uploaded() == (if old(self).uploaded() + old(self).chunks().len()
                    > usize::MAX {
                    usize::MAX as nat
                } else {
                    old(self).uploaded() + old(self).chunks().len()
                })
            },
            !(outcome is None && old(self).delivered() + 1 == old(self).chunks().len())
                ==> final(queue)@ == old(queue)@ && final(self).uploaded() == old(self).uploaded(),
            outcome is None && old(self).delivered() + 1 < old(self).chunks().len() ==> r
                == FollowUp::Continue && final(self).chunks() == old(self).chunks()
                && final(self).delivered() == old(self).delivered() + 1 && !final(self).refreshed(),
            outcome is Some ==> final(self).chunks() == old(self).chunks() && final(self).delivered()
                == old(self).delivered(),
            outcome == Some(UploadFailureReason::Unauthorized) && !old(self).refreshed() ==> r
                == FollowUp::Refresh && final(self).pending() == PendingRefresh::Unauthorized
                && final(tokens).tokens() == old(tokens).tokens(),
            outcome == Some(UploadFailureReason::Unauthorized) && old(self).refreshed() ==> r
                == FollowUp::Finish(
                UploadResult {
                    uploaded_batches: old(self).uploaded() as usize,
                    failure_reason: Some(UploadFailureReason::Unauthorized),
                },
            ) && final(tokens).tokens() is None,
            outcome is Some && outcome != Some(UploadFailureReason::Unauthorized) ==> r
                == FollowUp::Finish(
                UploadResult { uploaded_batches: old(self).uploaded() as usize, failure_reason: outcome },
            ) && final(tokens).tokens() == old(tokens).tokens(),
            outcome is None ==> final(tokens).tokens() == old(tokens).tokens(),
    {
        proof {
            use_type_invariant(&*self);
        }
        match outcome {
            None => {
                assert(self.chunks@.len() == batch_views(self.chunks@).len());
                let count = self.chunks.len();
                let next = self.chunk_index + 1;
                self.refreshed = false;
                if next == count {
                    let ghost q = queue@;
                    let popped = queue.pop();
                    let ghost now_popped = if q.len() > 0 {
                        self.popped@.push(q[0])
                    } else {
                        self.popped@
                    };
                    let uploaded = self.uploaded.saturating_add(self.chunks.len());
                    *self = UploadRun {
                        uploaded,
                        chunks: Vec::new(),
                        chunk_index: 0,
                        refreshed: false,
                        pending: self.pending,
                        head: self.head,
                        popped: Ghost(now_popped),
                    };
                    assert(batch_views(self.chunks@) =~= Seq::<BatchView>::empty());
                } else {
                    self.chunk_index = next;
                }
                FollowUp::Continue
            },
            Some(UploadFailureReason::Unauthorized) => {
                if !self.refreshed {
                    self.pending = PendingRefresh::Unauthorized;
                    FollowUp::Refresh
                } else {
                    tokens.clear();
                    FollowUp::Finish(self.finish(Some(UploadFailureReason::Unauthorized)))
                }
            },
            Some(f) => FollowUp::Finish(self.finish(Some(f))),
        }
    }
}

} // verus!
