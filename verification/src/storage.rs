//! Resolution of the application-private image directory, as a step
//! machine: the caller performs each platform action (resolving the
//! data directory, creating the image directory, writing and removing
//! the writability probe file) and feeds the outcome back; the machine
//! decides what follows. A failed probe write is an error; a failed
//! probe removal is advisory only, since the directory has already
//! proven writable.

use vstd::prelude::*;

use crate::paths::join_spec;
use crate::paths::join_path;

verus! {

/// The name of the image directory under the platform data directory.
pub open spec fn images_dir_name() -> Seq<char> {
    "images"@
}

/// The name of the temporary file written to prove writability.
pub open spec fn probe_file_name() -> Seq<char> {
    "test_write_permission.tmp"@
}

pub open spec fn data_dir_error_prefix() -> Seq<char> {
    "could not resolve the application data directory: "@
}

pub open spec fn create_error_prefix() -> Seq<char> {
    "could not create the image directory: "@
}

pub open spec fn probe_error_prefix() -> Seq<char> {
    "the image directory is not writable: "@
}

/// The image directory that a successful resolution yields for the
/// platform data directory `d`.
pub open spec fn resolved_image_dir(d: Seq<char>) -> Seq<char> {
    join_spec(d, images_dir_name())
}

/// Where the resolution stands: which platform action is owed next,
/// or how it ended.
pub enum StorageStep {
    /// The platform data directory has not been asked for yet.
    ResolveDataDir,
    /// `dir` must exist: create it, with any missing ancestors, unless
    /// it is already present.
    EnsureDir { dir: String },
    /// Write the probe file into `dir` to prove it writable.
    ProbeWrite { dir: String },
    /// Remove the probe file from `dir` again.
    RemoveProbe { dir: String },
    /// The resolution succeeded: `dir` exists and is writable.
    Done { dir: String },
    /// The resolution failed with a rendered message.
    Failed { message: String },
}

/// The outcome of one platform action, fed back into the machine.
#[allow(inconsistent_fields)]
pub enum StorageEvent {
    GotDataDir { outcome: Result<String, String> },
    DirEnsured { outcome: Result<(), String> },
    ProbeWritten { outcome: Result<(), String> },
    ProbeRemoved { outcome: Result<(), String> },
}

/// The mathematical shadow of [`StorageStep`], over character
/// sequences.
pub enum StepView {
    ResolveDataDir,
    EnsureDir(Seq<char>),
    ProbeWrite(Seq<char>),
    RemoveProbe(Seq<char>),
    Done(Seq<char>),
    Failed(Seq<char>),
}

/// The mathematical shadow of [`StorageEvent`].
pub enum EventView {
    GotDataDir(Result<Seq<char>, Seq<char>>),
    DirEnsured(Result<(), Seq<char>>),
    ProbeWritten(Result<(), Seq<char>>),
    ProbeRemoved(Result<(), Seq<char>>),
}

impl View for StorageStep {
    type V = StepView;

    open spec fn view(&self) -> StepView {
        match self {
            StorageStep::ResolveDataDir => StepView::ResolveDataDir,
            StorageStep::EnsureDir { dir } => StepView::EnsureDir(dir@),
            StorageStep::ProbeWrite { dir } => StepView::ProbeWrite(dir@),
            StorageStep::RemoveProbe { dir } => StepView::RemoveProbe(dir@),
            StorageStep::Done { dir } => StepView::Done(dir@),
            StorageStep::Failed { message } => StepView::Failed(message@),
        }
    }
}

impl View for StorageEvent {
    type V = EventView;

    open spec fn view(&self) -> EventView {
        match self {
            StorageEvent::GotDataDir { outcome: Ok(d) } => EventView::GotDataDir(Ok(d@)),
            StorageEvent::GotDataDir { outcome: Err(m) } => EventView::GotDataDir(Err(m@)),
            StorageEvent::DirEnsured { outcome: Ok(_) } => EventView::DirEnsured(Ok(())),
            StorageEvent::DirEnsured { outcome: Err(m) } => EventView::DirEnsured(Err(m@)),
            StorageEvent::ProbeWritten { outcome: Ok(_) } => EventView::ProbeWritten(Ok(())),
            StorageEvent::ProbeWritten { outcome: Err(m) } => EventView::ProbeWritten(Err(m@)),
            StorageEvent::ProbeRemoved { outcome: Ok(_) } => EventView::ProbeRemoved(Ok(())),
            StorageEvent::ProbeRemoved { outcome: Err(m) } => EventView::ProbeRemoved(Err(m@)),
        }
    }
}

/// The transition relation of the resolver. A resolved data directory
/// fixes the image directory as its `images` child; a failure at any
/// owed action ends the run with that action's error, except that a
/// failed probe removal still ends in `Done`, the removal being
/// advisory. An event that does not answer the owed action leaves the
/// step unchanged.
pub open spec fn step_model(s: StepView, e: EventView) -> StepView {
    match (s, e) {
        (StepView::ResolveDataDir, EventView::GotDataDir(Ok(d))) => StepView::EnsureDir(
            resolved_image_dir(d),
        ),
        (StepView::ResolveDataDir, EventView::GotDataDir(Err(m))) => StepView::Failed(
            data_dir_error_prefix() + m,
        ),
        (StepView::EnsureDir(dir), EventView::DirEnsured(Ok(_))) => StepView::ProbeWrite(dir),
        (StepView::EnsureDir(_), EventView::DirEnsured(Err(m))) => StepView::Failed(
            create_error_prefix() + m,
        ),
        (StepView::ProbeWrite(dir), EventView::ProbeWritten(Ok(_))) => StepView::RemoveProbe(dir),
        (StepView::ProbeWrite(_), EventView::ProbeWritten(Err(m))) => StepView::Failed(
            probe_error_prefix() + m,
        ),
        (StepView::RemoveProbe(dir), EventView::ProbeRemoved(_)) => StepView::Done(dir),
        _ => s,
    }
}

/// Advances the resolution by one step, exactly as [`step_model`]
/// says: the next owed action, or the final outcome, for every step
/// and event pair.
pub fn storage_step(step: StorageStep, event: StorageEvent) -> (r: StorageStep)
    ensures
        r@ == step_model(step@, event@),
{
    match (step, event) {
        (StorageStep::ResolveDataDir, StorageEvent::GotDataDir { outcome }) => match outcome {
            Ok(d) => StorageStep::EnsureDir { dir: join_path(d.as_str(), "images") },
            Err(m) => StorageStep::Failed {
                message: String::from_str(
                    "could not resolve the application data directory: ",
                ).concat(m.as_str()),
            },
        },
        (StorageStep::EnsureDir { dir }, StorageEvent::DirEnsured { outcome }) => match outcome {
            Ok(_) => StorageStep::ProbeWrite { dir },
            Err(m) => StorageStep::Failed {
                message: String::from_str("could not create the image directory: ").concat(
                    m.as_str(),
                ),
            },
        },
        (StorageStep::ProbeWrite { dir }, StorageEvent::ProbeWritten { outcome }) => match outcome {
            Ok(_) => StorageStep::RemoveProbe { dir },
            Err(m) => StorageStep::Failed {
                message: String::from_str("the image directory is not writable: ").concat(
                    m.as_str(),
                ),
            },
        },
        (StorageStep::RemoveProbe { dir }, StorageEvent::ProbeRemoved { outcome: _ }) => {
            StorageStep::Done { dir }
        },
        (other, _) => other,
    }
}

/// Returns the path of the probe file inside `dir`.
pub fn probe_path(dir: &str) -> (r: String)
    ensures
        r@ == join_spec(dir@, probe_file_name()),
{
    join_path(dir, "test_write_permission.tmp")
}

/// A full run of the resolver in which the data directory resolved to
/// `d` and both the directory and the probe write succeeded; the
/// removal outcome is left open.
pub open spec fn successful_run(d: Seq<char>, removal: Result<(), Seq<char>>) -> StepView {
    step_model(
        step_model(
            step_model(
                step_model(StepView::ResolveDataDir, EventView::GotDataDir(Ok(d))),
                EventView::DirEnsured(Ok(())),
            ),
            EventView::ProbeWritten(Ok(())),
        ),
        EventView::ProbeRemoved(removal),
    )
}

/// Two successful resolutions from the same platform data directory
/// end in `Done` with the same image directory, whatever became of
/// either probe removal: the resolved path is a function of the data
/// directory alone, and a failed removal never demotes a success.
pub proof fn lemma_resolution_deterministic(
    d: Seq<char>,
    removal1: Result<(), Seq<char>>,
    removal2: Result<(), Seq<char>>,
)
    ensures
        successful_run(d, removal1) == StepView::Done(resolved_image_dir(d)),
        successful_run(d, removal1) == successful_run(d, removal2),
{
}

/// A probe write failure ends the run in `Failed`, never in `Done`:
/// an unwritable directory is reported as an error, not returned.
pub proof fn lemma_unwritable_never_resolves(dir: Seq<char>, m: Seq<char>)
    ensures
        step_model(StepView::ProbeWrite(dir), EventView::ProbeWritten(Err(m))) is Failed,
        !(step_model(StepView::ProbeWrite(dir), EventView::ProbeWritten(Err(m))) is Done),
{
}

/// The three failure modes are reported distinctly: whatever the
/// platform's own error texts, a data-directory failure, a creation
/// failure, and a writability failure never render to the same
/// message.
pub proof fn lemma_failure_kinds_distinct(m1: Seq<char>, m2: Seq<char>)
    ensures
        data_dir_error_prefix() + m1 != create_error_prefix() + m2,
        data_dir_error_prefix() + m1 != probe_error_prefix() + m2,
        create_error_prefix() + m1 != probe_error_prefix() + m2,
{
    reveal_strlit("could not resolve the application data directory: ");
    reveal_strlit("could not create the image directory: ");
    reveal_strlit("the image directory is not writable: ");
    // The prefixes already differ within their first eleven
    // characters, which no suffix can undo.
    assert((data_dir_error_prefix() + m1)[10] == 'r');
    assert((create_error_prefix() + m2)[10] == 'c');
    assert((data_dir_error_prefix() + m1)[0] == 'c');
    assert((probe_error_prefix() + m2)[0] == 't');
    assert((create_error_prefix() + m1)[0] == 'c');
}

/// The machine's state after feeding `events` one by one, starting
/// from `s`.
pub open spec fn run_steps(s: StepView, events: Seq<EventView>) -> StepView
    decreases events.len(),
{
    if events.len() == 0 {
        s
    } else {
        run_steps(step_model(s, events[0]), events.drop_first())
    }
}

/// A failed run stays failed: no later event revives it.
pub proof fn lemma_failed_is_absorbing(m: Seq<char>, events: Seq<EventView>)
    ensures
        run_steps(StepView::Failed(m), events) == StepView::Failed(m),
    decreases events.len(),
{
    if events.len() > 0 {
        assert(step_model(StepView::Failed(m), events[0]) == StepView::Failed(m));
        lemma_failed_is_absorbing(m, events.drop_first());
    }
}

/// From a step before the probe, one event never reaches `Done`, and
/// reaches `RemoveProbe` only as the probe write's success.
proof fn lemma_pre_probe_transitions(s: StepView, e: EventView)
    requires
        s is ResolveDataDir || s is EnsureDir || s is ProbeWrite,
    ensures
        !(step_model(s, e) is Done),
        step_model(s, e) is RemoveProbe ==> s is ProbeWrite && e == EventView::ProbeWritten(
            Ok(()),
        ),
{
    match e {
        EventView::GotDataDir(o) => {
            if o is Ok {
            }
        },
        EventView::DirEnsured(o) => {
            if o is Ok {
            }
        },
        EventView::ProbeWritten(o) => match o {
            Ok(u) => {
                assert(e == EventView::ProbeWritten(Ok(())));
            },
            Err(_) => {
            },
        },
        EventView::ProbeRemoved(_) => {
        },
    }
}

/// No run that starts before the probe ever ends in `Done` without a
/// successful probe write among its events: a resolved path is only
/// handed out once the directory has proven writable.
pub proof fn lemma_done_needs_probe_write(s: StepView, events: Seq<EventView>)
    requires
        s is ResolveDataDir || s is EnsureDir || s is ProbeWrite,
        run_steps(s, events) is Done,
    ensures
        exists|i: int| 0 <= i < events.len() && events[i] == EventView::ProbeWritten(Ok(())),
    decreases events.len(),
{
    assert(events.len() > 0);
    let e0 = events[0];
    let next = step_model(s, e0);
    let rest = events.drop_first();
    lemma_pre_probe_transitions(s, e0);
    if next is Failed {
        lemma_failed_is_absorbing(next->Failed_0, rest);
        assert(false);
    } else if next is RemoveProbe {
        // Only a probe-write success moves past `ProbeWrite`.
        assert(events[0] == EventView::ProbeWritten(Ok(())));
    } else {
        lemma_done_needs_probe_write(next, rest);
        let i = choose|i: int|
            0 <= i < rest.len() && rest[i] == EventView::ProbeWritten(Ok(()));
        assert(events[i + 1] == EventView::ProbeWritten(Ok(())));
    }
}

} // verus!
