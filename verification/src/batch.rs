//! The batch executor: what happens to one input file, step by step.
//!
//! A job never opens, probes or writes a file itself. It tells its caller
//! what to do next and is told what came of it. In this way every job
//! signals its start once, reports once, and reports the path it was made
//! for, whatever the file system does.

use crate::codec::{encode, encoding_allowed, error_text, outcome_of, raw_view, Outcome};
use crate::naming::{candidate_name, compressed_name, output_file_name, UniqueNamer};
use crate::raster::{is_output_of, DecodedImage, Raster};
use vstd::prelude::*;

verus! {

/// How many images are decoded and encoded at the same time. The number is
/// fixed to bound the memory that decoded images take.
pub const WORKERS: usize = 4;

/// The name of the signal that a file is being processed; its payload is
/// the input path.
pub const EVENT_START: &'static str = "img-start";

/// The name of the signal that carries a [`ProcessResult`].
pub const EVENT_PROCESSED: &'static str = "img-processed";

/// The name of the signal that ends a batch; it has no payload.
pub const EVENT_FINISHED: &'static str = "batch-finished";

/// What a batch does: which files, where to, in which format, at which
/// quality, under which caps.
pub struct CompressConfig {
    /// The input files, in order. A path that occurs twice is processed
    /// twice.
    pub paths: Vec<String>,
    /// The directory that output is written to.
    pub output_dir: String,
    /// The format tag: `jpg`, `jpeg`, `png`, `webp`, `avif`, or a file
    /// extension.
    pub format: String,
    /// The quality, from 0 to 100.
    pub quality: u8,
    /// The largest width of an output image, if there is one.
    pub max_width: Option<u32>,
    /// The largest height of an output image, if there is one.
    pub max_height: Option<u32>,
}

/// How the processing of one file ended.
#[derive(Debug)]
pub struct ProcessResult {
    /// The input path.
    pub original: String,
    /// `success` or `error`.
    pub status: String,
    /// What went wrong, after an error.
    pub error_msg: Option<String>,
    /// Where the output was written, after a success.
    pub new_path: Option<String>,
}

/// A [`ProcessResult`] as plain values.
pub struct Verdict {
    pub original: Seq<char>,
    pub status: Seq<char>,
    pub error_msg: Option<Seq<char>>,
    pub new_path: Option<Seq<char>>,
}

impl View for ProcessResult {
    type V = Verdict;

    open spec fn view(&self) -> Verdict {
        Verdict {
            original: self.original@,
            status: self.status@,
            error_msg: match self.error_msg {
                Some(m) => Some(m@),
                None => None,
            },
            new_path: match self.new_path {
                Some(p) => Some(p@),
                None => None,
            },
        }
    }
}

/// The result for a file that was written to `path`.
pub open spec fn succeeded(original: Seq<char>, path: Seq<char>) -> Verdict {
    Verdict { original, status: "success"@, error_msg: None, new_path: Some(path) }
}

/// The result for a file that could not be processed.
pub open spec fn failed(original: Seq<char>, message: Seq<char>) -> Verdict {
    Verdict { original, status: "error"@, error_msg: Some(message), new_path: None }
}

impl ProcessResult {
    /// The result for a file that was written to `path`.
    pub fn success(original: &str, path: String) -> (r: ProcessResult)
        ensures
            r@ == succeeded(original@, path@),
    {
        ProcessResult {
            original: String::from_str(original),
            status: String::from_str("success"),
            error_msg: None,
            new_path: Some(path),
        }
    }

    /// The result for a file that could not be processed.
    pub fn failure(original: &str, message: String) -> (r: ProcessResult)
        ensures
            r@ == failed(original@, message@),
    {
        ProcessResult {
            original: String::from_str(original),
            status: String::from_str("error"),
            error_msg: Some(message),
            new_path: None,
        }
    }
}

/// Where a job stands.
#[derive(Clone, Copy, Debug, PartialEq, Eq, Structural)]
pub enum Phase {
    /// Nothing has happened yet.
    Pending,
    /// The start was signalled; the file is being decoded.
    Opening,
    /// A candidate output name is being looked up.
    Resolving,
    /// The image is being encoded and written.
    Storing,
    /// The result was reported.
    Finished,
}

/// What a job is told.
pub enum Event {
    /// Start working.
    Begin,
    /// The file was decoded and has this stem, or could not be opened.
    Opened(Option<String>),
    /// Whether a file of the name last asked about exists.
    Probed(bool),
    /// The output was written to this path, or encoding or writing failed
    /// with this message.
    Stored(Result<String, String>),
}

/// What a job asks of its caller.
pub enum Action {
    /// Signal that the file is being processed, decode it, and answer with
    /// [`Event::Opened`].
    Start,
    /// Look whether a file of this name exists in the output directory,
    /// and answer with [`Event::Probed`].
    Probe(String),
    /// Resize and encode the image, write it under this name in the output
    /// directory, and answer with [`Event::Stored`].
    Store(String),
    /// Report this result. The job is done.
    Report(ProcessResult),
    /// Nothing: the event was not one the job waits for.
    Idle,
}

/// An [`Event`] as plain values.
pub enum Signal {
    Begin,
    Opened(Option<Seq<char>>),
    Probed(bool),
    Stored(Result<Seq<char>, Seq<char>>),
}

/// An [`Action`] as plain values.
pub enum Order {
    Start,
    Probe(Seq<char>),
    Store(Seq<char>),
    Report(Verdict),
    Idle,
}

impl View for Event {
    type V = Signal;

    open spec fn view(&self) -> Signal {
        match self {
            Event::Begin => Signal::Begin,
            Event::Opened(Some(stem)) => Signal::Opened(Some(stem@)),
            Event::Opened(None) => Signal::Opened(None),
            Event::Probed(exists) => Signal::Probed(*exists),
            Event::Stored(Ok(path)) => Signal::Stored(Ok(path@)),
            Event::Stored(Err(message)) => Signal::Stored(Err(message@)),
        }
    }
}

impl View for Action {
    type V = Order;

    open spec fn view(&self) -> Order {
        match self {
            Action::Start => Order::Start,
            Action::Probe(name) => Order::Probe(name@),
            Action::Store(name) => Order::Store(name@),
            Action::Report(result) => Order::Report(result@),
            Action::Idle => Order::Idle,
        }
    }
}

/// A job as plain values: the input path, the format tag, the phase and,
/// while an output name is looked for or written to, the desired name and
/// the number of candidates found taken.
pub struct JobState {
    pub original: Seq<char>,
    pub tag: Seq<char>,
    pub phase: Phase,
    pub naming: Option<(Seq<char>, nat)>,
}

/// The job for a path, before anything has happened.
pub open spec fn pending(original: Seq<char>, tag: Seq<char>) -> JobState {
    JobState { original, tag, phase: Phase::Pending, naming: None }
}

/// A job in another phase, otherwise unchanged.
pub open spec fn moved(job: JobState, phase: Phase, naming: Option<(Seq<char>, nat)>) -> JobState {
    JobState { original: job.original, tag: job.tag, phase, naming }
}

/// A job that has reported.
pub open spec fn finished(job: JobState) -> JobState {
    moved(job, Phase::Finished, None)
}

/// What a job does when it is told something: the state it moves to and
/// what it asks for.
///
/// A pending job starts. A file that cannot be opened is reported as
/// `Open failed`. A file that was opened gets the name
/// `{stem}-compressed.{ext}`, and that name is looked up. While the
/// candidate is taken, the next one is looked up; the first free one is
/// written to. What comes of writing is reported. Anything a job does not
/// wait for leaves it as it is.
pub open spec fn next(job: JobState, signal: Signal) -> (JobState, Order) {
    match (job.phase, signal) {
        (Phase::Pending, Signal::Begin) => (moved(job, Phase::Opening, None), Order::Start),
        (Phase::Opening, Signal::Opened(None)) => (
            finished(job),
            Order::Report(failed(job.original, "Open failed"@)),
        ),
        (Phase::Opening, Signal::Opened(Some(stem))) => (
            moved(job, Phase::Resolving, Some((compressed_name(stem, job.tag), 0))),
            Order::Probe(compressed_name(stem, job.tag)),
        ),
        (Phase::Resolving, Signal::Probed(exists)) => match job.naming {
            Some((desired, attempt)) => if !exists {
                (
                    moved(job, Phase::Storing, job.naming),
                    Order::Store(candidate_name(desired, attempt)),
                )
            } else if attempt < u64::MAX {
                (
                    moved(job, Phase::Resolving, Some((desired, attempt + 1))),
                    Order::Probe(candidate_name(desired, attempt + 1)),
                )
            } else {
                (finished(job), Order::Report(failed(job.original, "No free output name"@)))
            },
            None => (job, Order::Idle),
        },
        (Phase::Storing, Signal::Stored(Ok(path))) => (
            finished(job),
            Order::Report(succeeded(job.original, path)),
        ),
        (Phase::Storing, Signal::Stored(Err(message))) => (
            finished(job),
            Order::Report(failed(job.original, message)),
        ),
        _ => (job, Order::Idle),
    }
}

/// The state of a job after a sequence of signals, and everything it
/// asked for on the way.
pub open spec fn run(job: JobState, signals: Seq<Signal>) -> (JobState, Seq<Order>)
    decreases signals.len(),
{
    if signals.len() == 0 {
        (job, Seq::empty())
    } else {
        let before = run(job, signals.drop_last());
        let step = next(before.0, signals.last());
        (step.0, before.1.push(step.1))
    }
}

/// How often a job asked to signal its start.
pub open spec fn starts(orders: Seq<Order>) -> nat
    decreases orders.len(),
{
    if orders.len() == 0 {
        0
    } else {
        starts(orders.drop_last()) + if orders.last() is Start {
            1nat
        } else {
            0nat
        }
    }
}

/// How often a job reported.
pub open spec fn reports(orders: Seq<Order>) -> nat
    decreases orders.len(),
{
    if orders.len() == 0 {
        0
    } else {
        reports(orders.drop_last()) + if orders.last() is Report {
            1nat
        } else {
            0nat
        }
    }
}

/// What holds of a job and of all it has asked for: it has started unless
/// it is pending, it has reported exactly if it is finished, a name is kept
/// exactly while it is needed, and every report is about the job's path.
pub open spec fn consistent(path: Seq<char>, job: JobState, orders: Seq<Order>) -> bool {
    &&& job.original == path
    &&& starts(orders) == if job.phase is Pending {
        0nat
    } else {
        1nat
    }
    &&& reports(orders) == if job.phase is Finished {
        1nat
    } else {
        0nat
    }
    &&& job.naming is Some <==> job.phase is Resolving || job.phase is Storing
    &&& forall|i: int|
        0 <= i < orders.len() ==> (#[trigger] orders[i] matches Order::Report(verdict)
            ==> verdict.original == path)
}

proof fn lemma_run_consistent(path: Seq<char>, tag: Seq<char>, signals: Seq<Signal>)
    ensures
        consistent(path, run(pending(path, tag), signals).0, run(pending(path, tag), signals).1),
    decreases signals.len(),
{
    let start = pending(path, tag);
    if signals.len() == 0 {
        assert(run(start, signals).1 =~= Seq::<Order>::empty());
    } else {
        lemma_run_consistent(path, tag, signals.drop_last());
        let before = run(start, signals.drop_last());
        let step = next(before.0, signals.last());
        let orders = before.1.push(step.1);
        assert(orders.drop_last() =~= before.1);
        assert(orders.last() == step.1);
        assert forall|i: int| 0 <= i < orders.len() implies (#[trigger] orders[i] matches Order::Report(
            verdict,
        ) ==> verdict.original == path) by {
            if i < before.1.len() {
                assert(orders[i] == before.1[i]);
            }
        }
    }
}

/// Whatever a job is told, in whatever order: it asks to signal its start
/// at most once and reports at most once; it has reported exactly once
/// when it is finished, and not before; and each report carries the path
/// that the job was made for.
pub proof fn lemma_one_start_one_report(path: Seq<char>, tag: Seq<char>, signals: Seq<Signal>)
    ensures
        ({
            let (job, orders) = run(pending(path, tag), signals);
            &&& starts(orders) <= 1
            &&& reports(orders) <= 1
            &&& reports(orders) == 1 <==> job.phase is Finished
            &&& reports(orders) == 1 ==> starts(orders) == 1
            &&& forall|i: int|
                0 <= i < orders.len() ==> (#[trigger] orders[i] matches Order::Report(verdict)
                    ==> verdict.original == path)
        }),
{
    lemma_run_consistent(path, tag, signals);
}

/// How often the jobs of a batch reported, all together: job `i` is the
/// job for `paths[i]` and was told `signals[i]`.
pub open spec fn batch_reports(
    paths: Seq<Seq<char>>,
    tag: Seq<char>,
    signals: Seq<Seq<Signal>>,
) -> nat
    decreases paths.len(),
{
    if paths.len() == 0 {
        0
    } else {
        batch_reports(paths.drop_last(), tag, signals.drop_last()) + reports(
            run(pending(paths.last(), tag), signals.last()).1,
        )
    }
}

/// A batch never reports more often than it has paths, and reports exactly
/// once for each path when every job is finished.
pub proof fn lemma_one_report_per_path(
    paths: Seq<Seq<char>>,
    tag: Seq<char>,
    signals: Seq<Seq<Signal>>,
)
    requires
        signals.len() == paths.len(),
    ensures
        batch_reports(paths, tag, signals) <= paths.len(),
        (forall|i: int|
            0 <= i < paths.len() ==> (#[trigger] run(
                pending(paths[i], tag),
                signals[i],
            )).0.phase is Finished) ==> batch_reports(paths, tag, signals) == paths.len(),
    decreases paths.len(),
{
    if paths.len() > 0 {
        let last = paths.len() - 1;
        lemma_one_report_per_path(paths.drop_last(), tag, signals.drop_last());
        lemma_one_start_one_report(paths.last(), tag, signals.last());
        assert forall|i: int| 0 <= i < last implies paths.drop_last()[i] == paths[i]
            && signals.drop_last()[i] == signals[i] by {}
        if forall|i: int|
            0 <= i < paths.len() ==> (#[trigger] run(
                pending(paths[i], tag),
                signals[i],
            )).0.phase is Finished {
            assert(run(pending(paths[last], tag), signals[last]).0.phase is Finished);
            assert forall|i: int| 0 <= i < last implies (#[trigger] run(
                pending(paths.drop_last()[i], tag),
                signals.drop_last()[i],
            )).0.phase is Finished by {
                assert(run(pending(paths[i], tag), signals[i]).0.phase is Finished);
            }
        }
    }
}

/// A job reports only after it has asked to signal its start: no report
/// comes before the start.
pub proof fn lemma_start_before_report(
    path: Seq<char>,
    tag: Seq<char>,
    signals: Seq<Signal>,
    i: int,
)
    requires
        0 <= i < signals.len(),
        run(pending(path, tag), signals).1[i] is Report,
    ensures
        exists|j: int| 0 <= j < i && run(pending(path, tag), signals).1[j] is Start,
    decreases signals.len(),
{
    let start = pending(path, tag);
    lemma_run_length(start, signals);
    if i < signals.len() - 1 {
        lemma_run_length(start, signals.drop_last());
        assert(run(start, signals).1[i] == run(start, signals.drop_last()).1[i]);
        lemma_start_before_report(path, tag, signals.drop_last(), i);
        let j = choose|j: int| 0 <= j < i && run(start, signals.drop_last()).1[j] is Start;
        assert(run(start, signals).1[j] == run(start, signals.drop_last()).1[j]);
    } else {
        let before = run(start, signals.drop_last());
        lemma_run_consistent(path, tag, signals.drop_last());
        lemma_run_length(start, signals.drop_last());
        assert(!(before.0.phase is Pending));
        assert(starts(before.1) == 1);
        lemma_starts_witness(before.1);
        let j = choose|j: int| 0 <= j < before.1.len() && before.1[j] is Start;
        assert(run(start, signals).1[j] == before.1[j]);
    }
}

/// The signals of a job whose file was opened with the given stem and
/// whose first `taken` candidates were found to exist.
pub open spec fn probed(stem: Seq<char>, taken: nat) -> Seq<Signal> {
    seq![Signal::Begin, Signal::Opened(Some(stem))] + Seq::new(
        taken,
        |i: int| Signal::Probed(true),
    )
}

proof fn lemma_run_probed(path: Seq<char>, tag: Seq<char>, stem: Seq<char>, taken: nat)
    requires
        taken <= u64::MAX,
    ensures
        ({
            let (job, orders) = run(pending(path, tag), probed(stem, taken));
            &&& job == moved(
                pending(path, tag),
                Phase::Resolving,
                Some((compressed_name(stem, tag), taken)),
            )
            &&& orders.len() == taken + 2
            &&& orders.last() == Order::Probe(candidate_name(compressed_name(stem, tag), taken))
        }),
    decreases taken,
{
    let start = pending(path, tag);
    let signals = probed(stem, taken);
    if taken == 0 {
        let one = seq![Signal::Begin];
        assert(signals =~= one.push(Signal::Opened(Some(stem))));
        assert(signals.drop_last() =~= one);
        assert(one.drop_last() =~= Seq::<Signal>::empty());
        assert(run(start, one.drop_last()).0 == start);
        assert(run(start, one).0 == moved(start, Phase::Opening, None));
    } else {
        lemma_run_probed(path, tag, stem, (taken - 1) as nat);
        assert(signals.drop_last() =~= probed(stem, (taken - 1) as nat));
        assert(signals.last() == Signal::Probed(true));
    }
}

/// A job tries the candidates for `{stem}-compressed.{ext}` in order and
/// writes to the first that does not exist: where `taken` candidates exist
/// and the next does not, it asks to store under candidate number `taken`,
/// having asked about each candidate before it exactly once.
pub proof fn lemma_job_stores_first_free(
    path: Seq<char>,
    tag: Seq<char>,
    stem: Seq<char>,
    taken: nat,
)
    requires
        taken <= u64::MAX,
    ensures
        ({
            let signals = probed(stem, taken).push(Signal::Probed(false));
            let (job, orders) = run(pending(path, tag), signals);
            &&& job.phase is Storing
            &&& orders.last() == Order::Store(candidate_name(compressed_name(stem, tag), taken))
            &&& forall|i: int|
                1 <= i <= taken + 1 ==> #[trigger] orders[i] == Order::Probe(
                    candidate_name(compressed_name(stem, tag), (i - 1) as nat),
                )
        }),
{
    let start = pending(path, tag);
    let signals = probed(stem, taken).push(Signal::Probed(false));
    lemma_run_probed(path, tag, stem, taken);
    assert(signals.drop_last() =~= probed(stem, taken));
    let orders = run(start, signals).1;
    assert forall|i: int| 1 <= i <= taken + 1 implies #[trigger] orders[i] == Order::Probe(
        candidate_name(compressed_name(stem, tag), (i - 1) as nat),
    ) by {
        let j = (i - 1) as nat;
        let prefix = probed(stem, j);
        lemma_run_probed(path, tag, stem, j);
        assert(prefix.len() == j + 2);
        assert(prefix =~= signals.take(prefix.len() as int));
        lemma_run_prefix(start, signals, prefix);
        lemma_run_length(start, signals);
        assert(run(start, prefix).1.last() == orders.take(prefix.len() as int)[i]);
    }
}

/// The signals of a job whose file could not be opened.
pub open spec fn unopened() -> Seq<Signal> {
    seq![Signal::Begin, Signal::Opened(None)]
}

/// The signals of a job whose file was opened, whose first `taken`
/// candidates exist and whose next one does not, and whose output was
/// stored with the given result.
pub open spec fn stored_after(
    stem: Seq<char>,
    taken: nat,
    stored: Result<Seq<char>, Seq<char>>,
) -> Seq<Signal> {
    probed(stem, taken).push(Signal::Probed(false)).push(Signal::Stored(stored))
}

/// The signals of a job whose file was opened and for which every
/// candidate that can be numbered exists.
pub open spec fn exhausted(stem: Seq<char>) -> Seq<Signal> {
    probed(stem, u64::MAX as nat).push(Signal::Probed(true))
}

/// Whether a job was answered as it asks, to the end: it was started and
/// told what came of opening its file, then, if the file was opened, what
/// came of each candidate it asked about and of storing under the first
/// that does not exist.
pub open spec fn answered(signals: Seq<Signal>) -> bool {
    ||| signals == unopened()
    ||| exists|stem: Seq<char>, taken: nat, stored: Result<Seq<char>, Seq<char>>|
        taken <= u64::MAX && signals == #[trigger] stored_after(stem, taken, stored)
    ||| exists|stem: Seq<char>| signals == #[trigger] exhausted(stem)
}

/// The result that a job reported last.
pub open spec fn last_report(orders: Seq<Order>) -> Verdict {
    match orders.last() {
        Order::Report(verdict) => verdict,
        _ => failed(Seq::empty(), Seq::empty()),
    }
}

/// A job whose file cannot be opened is finished once it is told so, and
/// has reported `Open failed` for its path.
pub proof fn lemma_unopened_job_finishes(path: Seq<char>, tag: Seq<char>)
    ensures
        run(pending(path, tag), unopened()).0.phase is Finished,
        run(pending(path, tag), unopened()).1.last() == Order::Report(
            failed(path, "Open failed"@),
        ),
{
    let start = pending(path, tag);
    let signals = unopened();
    let one = seq![Signal::Begin];
    assert(signals.drop_last() =~= one);
    assert(one.drop_last() =~= Seq::<Signal>::empty());
    assert(run(start, one.drop_last()).0 == start);
    assert(run(start, one).0 == moved(start, Phase::Opening, None));
}

/// A job that is told what came of storing its output is finished, and has
/// reported that result for its path: the path written to, or the message
/// of the failure.
pub proof fn lemma_stored_job_finishes(
    path: Seq<char>,
    tag: Seq<char>,
    stem: Seq<char>,
    taken: nat,
    stored: Result<Seq<char>, Seq<char>>,
)
    requires
        taken <= u64::MAX,
    ensures
        run(pending(path, tag), stored_after(stem, taken, stored)).0.phase is Finished,
        run(pending(path, tag), stored_after(stem, taken, stored)).1.last() == Order::Report(
            match stored {
                Ok(written) => succeeded(path, written),
                Err(message) => failed(path, message),
            },
        ),
{
    let start = pending(path, tag);
    let signals = stored_after(stem, taken, stored);
    let before = probed(stem, taken).push(Signal::Probed(false));
    lemma_job_stores_first_free(path, tag, stem, taken);
    lemma_run_consistent(path, tag, before);
    assert(signals.drop_last() =~= before);
    assert(signals.last() == Signal::Stored(stored));
}

/// A job for which every candidate that can be numbered exists is
/// finished, and has reported that no name is free.
pub proof fn lemma_exhausted_job_finishes(path: Seq<char>, tag: Seq<char>, stem: Seq<char>)
    ensures
        run(pending(path, tag), exhausted(stem)).0.phase is Finished,
        run(pending(path, tag), exhausted(stem)).1.last() == Order::Report(
            failed(path, "No free output name"@),
        ),
{
    let signals = exhausted(stem);
    let before = probed(stem, u64::MAX as nat);
    lemma_run_probed(path, tag, stem, u64::MAX as nat);
    assert(signals.drop_last() =~= before);
    assert(signals.last() == Signal::Probed(true));
}

/// A job that is answered as it asks does finish: it has then reported
/// exactly once, last of all, and for its own path.
pub proof fn lemma_answered_job_finishes(path: Seq<char>, tag: Seq<char>, signals: Seq<Signal>)
    requires
        answered(signals),
    ensures
        run(pending(path, tag), signals).0.phase is Finished,
        reports(run(pending(path, tag), signals).1) == 1,
        run(pending(path, tag), signals).1.last() is Report,
        last_report(run(pending(path, tag), signals).1).original == path,
{
    lemma_one_start_one_report(path, tag, signals);
    if signals == unopened() {
        lemma_unopened_job_finishes(path, tag);
    } else if exists|stem: Seq<char>, taken: nat, stored: Result<Seq<char>, Seq<char>>|
        taken <= u64::MAX && signals == #[trigger] stored_after(stem, taken, stored) {
        let (stem, taken, stored) = choose|
            stem: Seq<char>,
            taken: nat,
            stored: Result<Seq<char>, Seq<char>>,
        |
            taken <= u64::MAX && signals == #[trigger] stored_after(stem, taken, stored);
        lemma_stored_job_finishes(path, tag, stem, taken, stored);
    } else {
        let stem = choose|stem: Seq<char>| signals == #[trigger] exhausted(stem);
        lemma_exhausted_job_finishes(path, tag, stem);
    }
}

/// The paths that the jobs of a batch reported last, in the order of the
/// jobs.
pub open spec fn reported_paths(
    paths: Seq<Seq<char>>,
    tag: Seq<char>,
    signals: Seq<Seq<Signal>>,
) -> Seq<Seq<char>> {
    Seq::new(
        paths.len(),
        |i: int| last_report(run(pending(paths[i], tag), signals[i]).1).original,
    )
}

/// A batch whose jobs are all answered as they ask reports exactly as
/// often as it has paths, and the paths it reports are its input paths,
/// each as often as it occurs among them.
pub proof fn lemma_batch_reports_every_path(
    paths: Seq<Seq<char>>,
    tag: Seq<char>,
    signals: Seq<Seq<Signal>>,
)
    requires
        signals.len() == paths.len(),
        forall|i: int| 0 <= i < paths.len() ==> answered(#[trigger] signals[i]),
    ensures
        batch_reports(paths, tag, signals) == paths.len(),
        reported_paths(paths, tag, signals) == paths,
        reported_paths(paths, tag, signals).to_multiset() == paths.to_multiset(),
{
    assert forall|i: int| 0 <= i < paths.len() implies (#[trigger] run(
        pending(paths[i], tag),
        signals[i],
    )).0.phase is Finished && last_report(run(pending(paths[i], tag), signals[i]).1).original
        == paths[i] by {
        assert(answered(signals[i]));
        lemma_answered_job_finishes(paths[i], tag, signals[i]);
    }
    lemma_one_report_per_path(paths, tag, signals);
    assert(reported_paths(paths, tag, signals) =~= paths);
}

/// What a job asked for after part of its signals, it has asked for after
/// all of them.
proof fn lemma_run_prefix(job: JobState, signals: Seq<Signal>, prefix: Seq<Signal>)
    requires
        prefix.len() <= signals.len(),
        prefix == signals.take(prefix.len() as int),
    ensures
        run(job, prefix).1 == run(job, signals).1.take(prefix.len() as int),
    decreases signals.len(),
{
    lemma_run_length(job, signals);
    lemma_run_length(job, prefix);
    if prefix.len() == signals.len() {
        assert(prefix =~= signals);
        assert(run(job, signals).1.take(prefix.len() as int) =~= run(job, signals).1);
    } else {
        let shorter = signals.drop_last();
        assert(prefix =~= shorter.take(prefix.len() as int));
        lemma_run_prefix(job, shorter, prefix);
        lemma_run_length(job, shorter);
        assert(run(job, signals).1.take(prefix.len() as int) =~= run(job, shorter).1.take(
            prefix.len() as int,
        ));
    }
}

proof fn lemma_run_length(job: JobState, signals: Seq<Signal>)
    ensures
        run(job, signals).1.len() == signals.len(),
    decreases signals.len(),
{
    if signals.len() > 0 {
        lemma_run_length(job, signals.drop_last());
    }
}

proof fn lemma_starts_witness(orders: Seq<Order>)
    requires
        starts(orders) >= 1,
    ensures
        exists|j: int| 0 <= j < orders.len() && orders[j] is Start,
    decreases orders.len(),
{
    if orders.last() is Start {
        assert(orders[orders.len() - 1] is Start);
    } else {
        lemma_starts_witness(orders.drop_last());
        let j = choose|j: int| 0 <= j < orders.drop_last().len() && orders.drop_last()[j] is Start;
        assert(orders[j] == orders.drop_last()[j]);
    }
}

/// The work on one input file.
pub struct ItemJob {
    original: String,
    tag: String,
    phase: Phase,
    namer: Option<UniqueNamer>,
}

impl View for ItemJob {
    type V = JobState;

    closed spec fn view(&self) -> JobState {
        JobState {
            original: self.original@,
            tag: self.tag@,
            phase: self.phase,
            naming: match self.namer {
                Some(namer) => Some((namer.desired(), namer.attempt())),
                None => None,
            },
        }
    }
}

impl ItemJob {
    /// The job for one input path and a format tag, with nothing done yet.
    pub fn new(original: &str, tag: &str) -> (job: ItemJob)
        ensures
            job@ == pending(original@, tag@),
    {
        ItemJob {
            original: String::from_str(original),
            tag: String::from_str(tag),
            phase: Phase::Pending,
            namer: None,
        }
    }

    /// Where the job stands.
    pub fn phase(&self) -> (phase: Phase)
        ensures
            phase == self@.phase,
    {
        self.phase
    }

    /// The input path that the job was made for.
    pub fn original(&self) -> (path: &str)
        ensures
            path@ == self@.original,
    {
        self.original.as_str()
    }

    fn finish(&mut self, result: ProcessResult) -> (action: Action)
        ensures
            final(self)@ == finished(old(self)@),
            action@ == Order::Report(result@),
    {
        self.phase = Phase::Finished;
        self.namer = None;
        Action::Report(result)
    }

    /// Tells the job what happened and learns what to do next; see
    /// [`next`].
    pub fn step(&mut self, event: Event) -> (action: Action)
        ensures
            (final(self)@, action@) == next(old(self)@, event@),
    {
        match (self.phase, event) {
            (Phase::Pending, Event::Begin) => {
                self.phase = Phase::Opening;
                self.namer = None;
                Action::Start
            },
            (Phase::Opening, Event::Opened(None)) => {
                let result = ProcessResult::failure(
                    self.original.as_str(),
                    String::from_str("Open failed"),
                );
                self.finish(result)
            },
            (Phase::Opening, Event::Opened(Some(stem))) => {
                let desired = output_file_name(stem.as_str(), self.tag.as_str());
                let namer = UniqueNamer::new(desired.as_str());
                self.phase = Phase::Resolving;
                self.namer = Some(namer);
                Action::Probe(desired)
            },
            (Phase::Resolving, Event::Probed(exists)) => {
                match self.namer.take() {
                    Some(mut namer) => {
                        if !exists {
                            let name = namer.candidate();
                            self.phase = Phase::Storing;
                            self.namer = Some(namer);
                            Action::Store(name)
                        } else if namer.advance() {
                            let name = namer.candidate();
                            self.namer = Some(namer);
                            Action::Probe(name)
                        } else {
                            let result = ProcessResult::failure(
                                self.original.as_str(),
                                String::from_str("No free output name"),
                            );
                            self.finish(result)
                        }
                    },
                    None => Action::Idle,
                }
            },
            (Phase::Storing, Event::Stored(Ok(path))) => {
                let result = ProcessResult::success(self.original.as_str(), path);
                self.finish(result)
            },
            (Phase::Storing, Event::Stored(Err(message))) => {
                let result = ProcessResult::failure(self.original.as_str(), message);
                self.finish(result)
            },
            _ => Action::Idle,
        }
    }
}

/// An encoder's result as it is handed on to be written: the bytes, or
/// the message to report.
pub open spec fn reported(out: Outcome) -> Result<Seq<u8>, Seq<char>> {
    match out {
        Ok(bytes) => Ok(bytes),
        Err(e) => Err(error_text(e)),
    }
}

/// What compressing an image may give: the image is resized if it exceeds
/// a cap and left as it is if not, then encoded in the configured format
/// at the configured quality; what comes out is handed on, a failure as
/// its message.
pub open spec fn compress_allowed(
    source: Raster,
    tag: Seq<char>,
    quality: u8,
    max_w: Option<u32>,
    max_h: Option<u32>,
    r: Result<Seq<u8>, Seq<char>>,
) -> bool {
    exists|image: Raster, out: Outcome|
        is_output_of(image, source, max_w, max_h) && #[trigger] encoding_allowed(
            image,
            tag,
            quality,
            out,
        ) && r == reported(out)
}

/// Produces the bytes to write for an image: resized with the
/// high-quality filter where it exceeds a cap, then encoded; see
/// [`compress_allowed`].
pub fn compress(img: &DecodedImage, config: &CompressConfig) -> (r: Result<Vec<u8>, String>)
    ensures
        compress_allowed(
            img@,
            config.format@,
            config.quality,
            config.max_width,
            config.max_height,
            raw_view(r),
        ),
{
    let resized = img.resize_to_fit(config.max_width, config.max_height);
    let ghost image = if resized is Some {
        resized->Some_0@
    } else {
        img@
    };
    let encoded = match &resized {
        Some(i) => encode(i, config.format.as_str(), config.quality),
        None => encode(img, config.format.as_str(), config.quality),
    };
    proof {
        assert(encoding_allowed(image, config.format@, config.quality, outcome_of(encoded)));
    }
    match encoded {
        Ok(bytes) => Ok(bytes),
        Err(e) => Err(e.message()),
    }
}

/// The jobs of a batch: one for each input path, in order, all pending.
pub fn plan_batch(config: &CompressConfig) -> (jobs: Vec<ItemJob>)
    ensures
        jobs.len() == config.paths.len(),
        forall|i: int|
            0 <= i < jobs.len() ==> (#[trigger] jobs[i])@ == pending(
                config.paths[i]@,
                config.format@,
            ),
{
    let mut jobs: Vec<ItemJob> = Vec::new();
    let mut i: usize = 0;
    while i < config.paths.len()
        invariant
            i <= config.paths.len(),
            jobs.len() == i,
            forall|k: int|
                0 <= k < i ==> (#[trigger] jobs[k])@ == pending(config.paths[k]@, config.format@),
        decreases config.paths.len() - i,
    {
        jobs.push(ItemJob::new(config.paths[i].as_str(), config.format.as_str()));
        i = i + 1;
    }
    jobs
}

} // verus!
