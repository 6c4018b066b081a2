//! The batch orchestrator: which job may start, what each completion reports,
//! and the results in submission order. The caller runs the jobs; this state
//! machine decides.
use vstd::prelude::*;
use crate::decimal::Amount;
use crate::protocol::{base_name, file_base_name};
use crate::receipt::{OcrProgressEvent, OcrResult, ReceiptData};

verus! {

/// One job of a batch: a file, its content in base64, and its MIME type. Its
/// index in the submitted sequence is its identity.
pub struct OcrRequest {
    pub file_path: String,
    pub file_content: String,
    pub mime_type: String,
}

/// How many jobs may execute their remote calls at once.
pub const MAX_CONCURRENT_OCR: usize = 3;

/// The state of a batch: jobs below `started` have started, `completed` of them
/// have finished, and `slots[i]` holds the outcome of job `i` once it finished.
pub struct BatchModel {
    pub total: nat,
    pub limit: nat,
    pub started: nat,
    pub completed: nat,
    pub slots: Seq<Option<OcrResult>>,
}

/// One step of a batch run.
pub enum BatchStep {
    Start,
    Complete(nat, OcrResult),
}

/// How many of the first `n` slots hold an outcome.
pub open spec fn done_count(slots: Seq<Option<OcrResult>>, n: nat) -> nat
    decreases n,
{
    if n == 0 {
        0
    } else {
        done_count(slots, (n - 1) as nat) + (if slots[n - 1] is Some {
            1nat
        } else {
            0nat
        })
    }
}

pub open spec fn model_wf(m: BatchModel) -> bool {
    &&& m.limit > 0
    &&& m.slots.len() == m.total
    &&& m.completed <= m.started <= m.total
    &&& m.started - m.completed <= m.limit
    &&& m.completed == done_count(m.slots, m.total)
    &&& forall|i: int| m.started <= i < m.total ==> m.slots[i] is None
}

pub open spec fn model_new(total: nat, limit: nat) -> BatchModel {
    BatchModel {
        total,
        limit,
        started: 0,
        completed: 0,
        slots: Seq::new(total, |_i: int| None),
    }
}

/// A job may start while some job waits and fewer than `limit` jobs are running.
pub open spec fn can_start(m: BatchModel) -> bool {
    m.started < m.total && m.started - m.completed < m.limit
}

pub open spec fn model_start(m: BatchModel) -> BatchModel {
    if can_start(m) {
        BatchModel { started: m.started + 1, ..m }
    } else {
        m
    }
}

/// A job may finish once it started and has not finished yet.
pub open spec fn can_complete(m: BatchModel, i: nat) -> bool {
    i < m.started && m.slots[i as int] is None
}

pub open spec fn model_complete(m: BatchModel, i: nat, o: OcrResult) -> BatchModel {
    BatchModel { completed: m.completed + 1, slots: m.slots.update(i as int, Some(o)), ..m }
}

pub open spec fn step_allowed(m: BatchModel, s: BatchStep) -> bool {
    match s {
        BatchStep::Start => true,
        BatchStep::Complete(i, _) => can_complete(m, i),
    }
}

pub open spec fn model_step(m: BatchModel, s: BatchStep) -> BatchModel {
    match s {
        BatchStep::Start => model_start(m),
        BatchStep::Complete(i, o) => model_complete(m, i, o),
    }
}

/// The state after running `steps` from `m`.
pub open spec fn run(m: BatchModel, steps: Seq<BatchStep>) -> BatchModel
    decreases steps.len(),
{
    if steps.len() == 0 {
        m
    } else {
        model_step(run(m, steps.drop_last()), steps.last())
    }
}

/// Every step of `steps` is allowed where it is taken.
pub open spec fn valid_run(m: BatchModel, steps: Seq<BatchStep>) -> bool
    decreases steps.len(),
{
    steps.len() == 0 || (valid_run(m, steps.drop_last()) && step_allowed(
        run(m, steps.drop_last()),
        steps.last(),
    ))
}

/// The completed-counts that the progress events of `steps` report, in order.
pub open spec fn reported_counts(m: BatchModel, steps: Seq<BatchStep>) -> Seq<nat>
    decreases steps.len(),
{
    if steps.len() == 0 {
        Seq::empty()
    } else {
        let before = reported_counts(m, steps.drop_last());
        match steps.last() {
            BatchStep::Complete(_, _) => before.push(run(m, steps.drop_last()).completed + 1),
            BatchStep::Start => before,
        }
    }
}

/// The outcome that the last completion of job `i` in `steps` carried.
pub open spec fn outcome_of(steps: Seq<BatchStep>, i: nat) -> Option<OcrResult>
    decreases steps.len(),
{
    if steps.len() == 0 {
        None
    } else {
        match steps.last() {
            BatchStep::Complete(j, o) => if j == i {
                Some(o)
            } else {
                outcome_of(steps.drop_last(), i)
            },
            BatchStep::Start => outcome_of(steps.drop_last(), i),
        }
    }
}

proof fn lemma_done_count_update(s: Seq<Option<OcrResult>>, n: nat, i: int, o: OcrResult)
    requires
        0 <= i < s.len(),
        n <= s.len(),
        s[i] is None,
    ensures
        done_count(s.update(i, Some(o)), n) == done_count(s, n) + (if i < n {
            1nat
        } else {
            0nat
        }),
    decreases n,
{
    if n > 0 {
        lemma_done_count_update(s, (n - 1) as nat, i, o);
    }
}

proof fn lemma_done_count_full(s: Seq<Option<OcrResult>>, n: nat)
    requires
        n <= s.len(),
    ensures
        done_count(s, n) <= n,
        done_count(s, n) == n ==> forall|i: int| 0 <= i < n ==> s[i] is Some,
    decreases n,
{
    if n > 0 {
        lemma_done_count_full(s, (n - 1) as nat);
    }
}

proof fn lemma_done_count_gap(s: Seq<Option<OcrResult>>, n: nat, i: int)
    requires
        n <= s.len(),
        0 <= i < n,
        s[i] is None,
    ensures
        done_count(s, n) < n,
    decreases n,
{
    lemma_done_count_full(s, (n - 1) as nat);
    if i < n - 1 {
        lemma_done_count_gap(s, (n - 1) as nat, i);
    }
}

proof fn lemma_done_count_tail(s: Seq<Option<OcrResult>>, a: nat, n: nat)
    requires
        a <= n <= s.len(),
        forall|j: int| a <= j < n ==> s[j] is None,
    ensures
        done_count(s, n) == done_count(s, a),
    decreases n,
{
    if n > a {
        lemma_done_count_tail(s, a, (n - 1) as nat);
    }
}

proof fn lemma_done_count_none(s: Seq<Option<OcrResult>>, n: nat)
    requires
        n <= s.len(),
        forall|i: int| 0 <= i < n ==> s[i] is None,
    ensures
        done_count(s, n) == 0,
    decreases n,
{
    if n > 0 {
        lemma_done_count_none(s, (n - 1) as nat);
    }
}

/// A fresh batch is well formed, and each allowed step keeps it so: at no time do
/// more than `limit` started jobs wait for their outcome.
pub proof fn lemma_steps_keep_wf(m: BatchModel, s: BatchStep)
    requires
        model_wf(m),
        step_allowed(m, s),
    ensures
        model_wf(model_step(m, s)),
        model_step(m, s).started - model_step(m, s).completed <= m.limit,
{
    match s {
        BatchStep::Start => {
            let n = model_start(m);
            assert forall|j: int| n.started <= j < n.total implies n.slots[j] is None by {
                assert(m.started <= j);
            }
        },
        BatchStep::Complete(i, o) => {
            lemma_done_count_update(m.slots, m.total, i as int, o);
            lemma_done_count_tail(m.slots, m.started, m.total);
            lemma_done_count_gap(m.slots, m.started, i as int);
            let n = model_complete(m, i, o);
            assert forall|j: int| n.started <= j < n.total implies n.slots[j] is None by {
                assert(j != i);
            }
        },
    }
}

/// Every state that an allowed run reaches from a fresh batch of `total` jobs is
/// well formed: at most `limit` jobs execute at once.
pub proof fn lemma_concurrency_bounded(total: nat, limit: nat, steps: Seq<BatchStep>)
    requires
        limit > 0,
        valid_run(model_new(total, limit), steps),
    ensures
        model_wf(run(model_new(total, limit), steps)),
        run(model_new(total, limit), steps).started - run(model_new(total, limit), steps).completed
            <= limit,
        run(model_new(total, limit), steps).total == total,
        run(model_new(total, limit), steps).limit == limit,
    decreases steps.len(),
{
    let m0 = model_new(total, limit);
    if steps.len() == 0 {
        lemma_done_count_none(m0.slots, total);
    } else {
        lemma_concurrency_bounded(total, limit, steps.drop_last());
        lemma_steps_keep_wf(run(m0, steps.drop_last()), steps.last());
    }
}

/// In every allowed run, slot `i` holds exactly the outcome that the completion
/// of job `i` carried, whatever the order in which jobs completed.
pub proof fn lemma_outcomes_by_index(total: nat, limit: nat, steps: Seq<BatchStep>, i: nat)
    requires
        limit > 0,
        i < total,
        valid_run(model_new(total, limit), steps),
    ensures
        run(model_new(total, limit), steps).slots[i as int] == outcome_of(steps, i),
    decreases steps.len(),
{
    if steps.len() > 0 {
        lemma_outcomes_by_index(total, limit, steps.drop_last(), i);
        lemma_concurrency_bounded(total, limit, steps.drop_last());
    }
}

/// The progress events of an allowed run report the completed-counts 1, 2, ...,
/// one per completion, each once; when all `total` jobs are done they are
/// exactly 1 to `total`.
pub proof fn lemma_progress_counts(total: nat, limit: nat, steps: Seq<BatchStep>)
    requires
        limit > 0,
        valid_run(model_new(total, limit), steps),
    ensures
        reported_counts(model_new(total, limit), steps) == Seq::new(
            run(model_new(total, limit), steps).completed,
            |k: int| (k + 1) as nat,
        ),
        run(model_new(total, limit), steps).completed <= total,
    decreases steps.len(),
{
    let m0 = model_new(total, limit);
    lemma_concurrency_bounded(total, limit, steps);
    if steps.len() > 0 {
        lemma_progress_counts(total, limit, steps.drop_last());
        let prev = run(m0, steps.drop_last());
        match steps.last() {
            BatchStep::Complete(_, _) => {
                assert(reported_counts(m0, steps) =~= Seq::new(
                    prev.completed + 1,
                    |k: int| (k + 1) as nat,
                ));
            },
            BatchStep::Start => {
                assert(reported_counts(m0, steps) =~= Seq::new(
                    run(m0, steps).completed,
                    |k: int| (k + 1) as nat,
                ));
            },
        }
    }
}

/// The outcomes of a batch in submission order, once all are in.
pub open spec fn results_of(m: BatchModel) -> Seq<OcrResult> {
    m.slots.map_values(|o: Option<OcrResult>| o->0)
}

/// A batch of `total` jobs, run to the end in any allowed order: there are
/// `total` results, result `i` is the outcome job `i` completed with (so one
/// job's failure stands at its own index and nowhere else), and the progress
/// events reported the completed-counts 1 to `total`, each once.
pub proof fn lemma_finished_batch(total: nat, limit: nat, steps: Seq<BatchStep>)
    requires
        limit > 0,
        valid_run(model_new(total, limit), steps),
        run(model_new(total, limit), steps).completed == total,
    ensures
        results_of(run(model_new(total, limit), steps)).len() == total,
        forall|i: nat|
            i < total ==> outcome_of(steps, i) == Some(
                #[trigger] results_of(run(model_new(total, limit), steps))[i as int],
            ),
        reported_counts(model_new(total, limit), steps) == Seq::new(total, |k: int| (k + 1) as nat),
{
    let m = run(model_new(total, limit), steps);
    lemma_concurrency_bounded(total, limit, steps);
    lemma_progress_counts(total, limit, steps);
    lemma_done_count_full(m.slots, total);
    assert forall|i: nat| i < total implies outcome_of(steps, i) == Some(
        #[trigger] results_of(m)[i as int],
    ) by {
        lemma_outcomes_by_index(total, limit, steps, i);
        assert(m.slots[i as int] is Some);
    }
}

/// Two finished runs of the same batch whose jobs completed with the same
/// outcomes give the same results, whatever order the jobs completed in.
pub proof fn lemma_results_independent_of_order(
    total: nat,
    limit: nat,
    first: Seq<BatchStep>,
    second: Seq<BatchStep>,
)
    requires
        limit > 0,
        valid_run(model_new(total, limit), first),
        valid_run(model_new(total, limit), second),
        run(model_new(total, limit), first).completed == total,
        run(model_new(total, limit), second).completed == total,
        forall|i: nat| i < total ==> #[trigger] outcome_of(first, i) == outcome_of(second, i),
    ensures
        results_of(run(model_new(total, limit), first)) == results_of(
            run(model_new(total, limit), second),
        ),
{
    lemma_finished_batch(total, limit, first);
    lemma_finished_batch(total, limit, second);
    let a = results_of(run(model_new(total, limit), first));
    let b = results_of(run(model_new(total, limit), second));
    assert forall|i: int| 0 <= i < a.len() implies a[i] == b[i] by {
        assert(outcome_of(first, i as nat) == Some(a[i]));
        assert(outcome_of(second, i as nat) == Some(b[i]));
    }
    assert(a =~= b);
}

proof fn lemma_done_count_all(s: Seq<Option<OcrResult>>, n: nat)
    requires
        n <= s.len(),
        forall|i: int| 0 <= i < n ==> s[i] is Some,
    ensures
        done_count(s, n) == n,
    decreases n,
{
    if n > 0 {
        lemma_done_count_all(s, (n - 1) as nat);
    }
}

proof fn lemma_run_push(m0: BatchModel, steps: Seq<BatchStep>, s: BatchStep)
    requires
        valid_run(m0, steps),
        step_allowed(run(m0, steps), s),
    ensures
        valid_run(m0, steps.push(s)),
        run(m0, steps.push(s)) == model_step(run(m0, steps), s),
{
    assert(steps.push(s).drop_last() =~= steps);
}

/// Every allowed run can be carried on, by allowed steps, until every job has
/// finished: no state of a batch is stuck. The continuation returned extends
/// `steps`, and each job it completes carries outcome `o`.
pub proof fn lemma_run_can_finish(m0: BatchModel, steps: Seq<BatchStep>, o: OcrResult) -> (all:
    Seq<BatchStep>)
    requires
        valid_run(m0, steps),
        model_wf(run(m0, steps)),
    ensures
        valid_run(m0, all),
        all.len() >= steps.len(),
        all.take(steps.len() as int) == steps,
        model_wf(run(m0, all)),
        run(m0, all).completed == run(m0, all).total,
    decreases (run(m0, steps).total - run(m0, steps).started) + (run(m0, steps).total - run(
        m0,
        steps,
    ).completed),
{
    let m = run(m0, steps);
    if m.completed == m.total {
        assert(steps.take(steps.len() as int) =~= steps);
        steps
    } else {
        let s = if can_start(m) {
            BatchStep::Start
        } else {
            lemma_done_count_tail(m.slots, m.started, m.total);
            if forall|i: int| 0 <= i < m.started ==> m.slots[i] is Some {
                lemma_done_count_all(m.slots, m.started);
            }
            let i = choose|i: int| 0 <= i < m.started && m.slots[i] is None;
            BatchStep::Complete(i as nat, o)
        };
        lemma_run_push(m0, steps, s);
        lemma_steps_keep_wf(m, s);
        let all = lemma_run_can_finish(m0, steps.push(s), o);
        assert(all.take(steps.len() as int) =~= steps.push(s).take(steps.len() as int));
        assert(steps.push(s).take(steps.len() as int) =~= steps);
        all
    }
}

fn copy_text(o: &Option<String>) -> (r: Option<String>)
    ensures
        r == *o,
{
    match o {
        Some(s) => Some(s.clone()),
        None => None,
    }
}

impl ReceiptData {
    /// A copy of this record.
    pub fn duplicate(&self) -> (r: ReceiptData)
        ensures
            r == *self,
    {
        let amount: Option<Amount> = match &self.amount {
            Some(a) => Some(*a),
            None => None,
        };
        ReceiptData {
            file: self.file.clone(),
            merchant: copy_text(&self.merchant),
            date: copy_text(&self.date),
            amount,
            currency: copy_text(&self.currency),
            receiver_name: copy_text(&self.receiver_name),
        }
    }
}

impl OcrResult {
    /// A copy of this outcome.
    pub fn duplicate(&self) -> (r: OcrResult)
        ensures
            r == *self,
    {
        let data = match &self.data {
            Some(d) => Some(d.duplicate()),
            None => None,
        };
        OcrResult { success: self.success, data, error: copy_text(&self.error) }
    }
}

/// A batch in progress.
pub struct BatchRun {
    total: usize,
    limit: usize,
    started: usize,
    completed: usize,
    slots: Vec<Option<OcrResult>>,
}

impl BatchRun {
    pub closed spec fn view(&self) -> BatchModel {
        BatchModel {
            total: self.total as nat,
            limit: self.limit as nat,
            started: self.started as nat,
            completed: self.completed as nat,
            slots: self.slots@,
        }
    }

    pub closed spec fn wf(&self) -> bool {
        model_wf(self.view())
    }

    /// A batch of `total` jobs of which at most `limit` execute at once.
    pub fn new(total: usize, limit: usize) -> (r: BatchRun)
        requires
            limit > 0,
        ensures
            r.wf(),
            r.view() == model_new(total as nat, limit as nat),
    {
        let mut slots: Vec<Option<OcrResult>> = Vec::new();
        let mut i: usize = 0;
        while i < total
            invariant
                i <= total,
                slots@ == Seq::new(i as nat, |_j: int| None::<OcrResult>),
            decreases total - i,
        {
            slots.push(None);
            i = i + 1;
            assert(slots@ =~= Seq::new(i as nat, |_j: int| None::<OcrResult>));
        }
        let r = BatchRun { total, limit, started: 0, completed: 0, slots };
        proof {
            lemma_done_count_none(r.slots@, total as nat);
            assert(r.view() =~= model_new(total as nat, limit as nat));
        }
        r
    }

    /// The number of jobs in the batch.
    pub fn total(&self) -> (r: usize)
        ensures
            r == self.view().total,
    {
        self.total
    }

    /// Starts the next waiting job, if one waits and the limit leaves room; returns its index.
    pub fn start_next(&mut self) -> (r: Option<usize>)
        requires
            old(self).wf(),
        ensures
            final(self).wf(),
            final(self).view() == model_start(old(self).view()),
            can_start(old(self).view()) ==> r == Some(old(self).view().started as usize),
            !can_start(old(self).view()) ==> r is None,
    {
        if self.started < self.total && self.started - self.completed < self.limit {
            let i = self.started;
            self.started = self.started + 1;
            proof {
                assert(self.view() =~= model_start(old(self).view()));
            }
            Some(i)
        } else {
            None
        }
    }

    /// Whether job `index` has started and not finished.
    pub fn is_running(&self, index: usize) -> (r: bool)
        requires
            self.wf(),
        ensures
            r == (index < self.view().total && can_complete(self.view(), index as nat)),
    {
        index < self.started && self.slots[index].is_none()
    }

    /// Records the outcome of job `index`, which makes room for another job, and
    /// returns the progress event that reports it.
    pub fn complete(&mut self, index: usize, outcome: OcrResult, file_path: &str) -> (r:
        OcrProgressEvent)
        requires
            old(self).wf(),
            index < old(self).view().total,
            can_complete(old(self).view(), index as nat),
        ensures
            final(self).wf(),
            final(self).view() == model_complete(old(self).view(), index as nat, outcome),
            r.current == final(self).view().completed,
            r.current == old(self).view().completed + 1,
            r.total == old(self).view().total,
            r.file_name@ == base_name(file_path@),
            r.result == Some(outcome),
    {
        proof {
            lemma_steps_keep_wf(self.view(), BatchStep::Complete(index as nat, outcome));
        }
        let reported = outcome.duplicate();
        self.slots.set(index, Some(outcome));
        self.completed = self.completed + 1;
        proof {
            assert(self.view() =~= model_complete(old(self).view(), index as nat, outcome));
        }
        OcrProgressEvent {
            current: self.completed,
            total: self.total,
            file_name: file_base_name(file_path),
            result: Some(reported),
        }
    }

    /// Whether every job has finished.
    pub fn is_finished(&self) -> (r: bool)
        requires
            self.wf(),
        ensures
            r == (self.view().completed == self.view().total),
    {
        self.completed == self.total
    }

    /// The outcomes of a finished batch, in submission order.
    pub fn into_results(self) -> (r: Vec<OcrResult>)
        requires
            self.wf(),
            self.view().completed == self.view().total,
        ensures
            r@.len() == self.view().total,
            r@ == results_of(self.view()),
            forall|i: int| 0 <= i < r@.len() ==> self.view().slots[i] == Some(#[trigger] r@[i]),
    {
        proof {
            lemma_done_count_full(self.slots@, self.total as nat);
        }
        let ghost all = self.slots@;
        let mut slots = self.slots;
        let mut out: Vec<OcrResult> = Vec::new();
        let n = slots.len();
        while slots.len() > 0
            invariant
                n == all.len(),
                slots@ == all.skip(out@.len() as int),
                out@.len() <= n,
                forall|i: int| 0 <= i < n ==> all[i] is Some,
                forall|i: int| 0 <= i < out@.len() ==> all[i] == Some(#[trigger] out@[i]),
            decreases slots@.len(),
        {
            let k = out.len();
            assert(slots@[0] == all[k as int]);
            let o = slots.remove(0);
            match o {
                Some(x) => out.push(x),
                None => {
                    assert(false);
                },
            }
            assert(slots@ =~= all.skip(out@.len() as int));
        }
        assert(out@ =~= results_of(self.view()));
        out
    }
}

} // verus!
