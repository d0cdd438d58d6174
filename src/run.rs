//! The decisions of a run: what to do with each loaded pair, and the states
//! that a run passes through. Reading files, writing them and printing are
//! left to the caller, which performs the actions returned here and reports
//! back what happened as events.

use crate::codec::{encode_image, kind_of_path, load_outcome, png_encoding, DiffImage, LoadError};
use crate::diff::{identical_images_score_zero, rendered, subtract_image, DiffScore, RgbaImage};
use crate::paths::{ancestors, create_path, diff_file_name, rebased, Config, FilePath, PathModel};
use vstd::prelude::*;

verus! {

/// Why a run stopped.
#[derive(Debug)]
pub enum RunError {
    /// The source tree could not be walked; the message says why.
    Discovery(String),
    /// A file of a pair could not be loaded.
    Load(FilePath, LoadError),
    /// A destination file does not lie under the destination root.
    OutsideDestination(FilePath),
    /// The difference image could not be encoded.
    Encode(image::ImageError),
    /// The difference image could not be written; the message says why.
    Output(String),
}

/// A difference image to write, with the directories that must exist
/// first, shortest first.
#[derive(Debug)]
pub struct Artifact {
    pub path: FilePath,
    pub directories: Vec<FilePath>,
    pub bytes: Vec<u8>,
}

/// What comparing one pair produced.
#[derive(Debug)]
pub enum PairOutcome {
    /// The images differ in width or height; the pair is skipped.
    DimensionMismatch { source: FilePath, destination: FilePath },
    /// The images were compared; a difference image comes with a nonzero
    /// score.
    Compared { source: FilePath, score: DiffScore, artifact: Option<Artifact> },
}

/// Whether `a` is the artifact for a difference image encoded as `bytes`
/// at `path`.
pub open spec fn is_artifact(a: Artifact, path: PathModel, bytes: Seq<u8>) -> bool {
    &&& a.path@ == path
    &&& a.directories@.map_values(|d: FilePath| d@) == ancestors(path)
    &&& a.bytes@ == bytes
}

/// Whether `r` is the outcome of comparing two images that loaded, from
/// `source` and `destination`.
pub open spec fn comparison_outcome(
    config: Config,
    source: PathModel,
    destination: PathModel,
    a: RgbaImage,
    b: RgbaImage,
    r: Result<PairOutcome, RunError>,
) -> bool {
    if a.width != b.width || a.height != b.height {
        r matches Ok(PairOutcome::DimensionMismatch { source: s, destination: d }) && s@ == source
            && d@ == destination
    } else {
        let score = DiffScore::of(a.pixels@, b.pixels@);
        if score.difference == 0 {
            r matches Ok(PairOutcome::Compared { source: s, score: sc, artifact: None }) && s@
                == source && sc == score
        } else {
            match rebased(destination, config.dest_dir@, config.diff_dir@) {
                None => r matches Err(RunError::OutsideDestination(p)) && p@ == destination,
                Some(path) => match png_encoding(a.width, a.height, rendered(a.pixels@, b.pixels@)) {
                    None => r matches Err(RunError::Encode(_)),
                    Some(bytes) => r matches Ok(
                        PairOutcome::Compared { source: s, score: sc, artifact: Some(art) },
                    ) && s@ == source && sc == score && is_artifact(art, path, bytes),
                },
            }
        }
    }
}

/// Whether `r` is the outcome of comparing the loaded pair `source`,
/// `destination`: the first load failure stops the run; images of unequal
/// size are skipped; otherwise the score is reported, with a difference
/// image under the diff root when it is nonzero.
pub open spec fn pair_outcome(
    config: Config,
    source: DiffImage,
    destination: DiffImage,
    r: Result<PairOutcome, RunError>,
) -> bool {
    match source.image {
        Err(e) => r matches Err(RunError::Load(p, e2)) && p@ == source.path@ && e2 == e,
        Ok(a) => match destination.image {
            Err(e) => r matches Err(RunError::Load(p, e2)) && p@ == destination.path@ && e2 == e,
            Ok(b) => comparison_outcome(config, source.path@, destination.path@, a, b, r),
        },
    }
}

fn compare_loaded(
    config: &Config,
    source: FilePath,
    destination: FilePath,
    a: &RgbaImage,
    b: &RgbaImage,
) -> (r: Result<PairOutcome, RunError>)
    requires
        a.wf(),
        b.wf(),
    ensures
        comparison_outcome(*config, source@, destination@, *a, *b, r),
{
    if !a.same_dimensions(b) {
        return Ok(PairOutcome::DimensionMismatch { source, destination });
    }
    let (score, image) = subtract_image(a, b);
    if score.is_zero() {
        return Ok(PairOutcome::Compared { source, score, artifact: None });
    }
    let path = match diff_file_name(config, &destination) {
        Some(p) => p,
        None => {
            return Err(RunError::OutsideDestination(destination));
        },
    };
    let bytes = match encode_image(&image) {
        Ok(b) => b,
        Err(e) => {
            return Err(RunError::Encode(e));
        },
    };
    let directories = create_path(&path);
    proof {
        assert(directories@.map_values(|d: FilePath| d@) =~= ancestors(path@));
    }
    Ok(PairOutcome::Compared { source, score, artifact: Some(Artifact { path, directories, bytes }) })
}

/// Decides what to do with a loaded pair.
pub fn diff_pair(config: &Config, source: DiffImage, destination: DiffImage) -> (r: Result<
    PairOutcome,
    RunError,
>)
    requires
        source.image matches Ok(a) ==> a.wf(),
        destination.image matches Ok(b) ==> b.wf(),
    ensures
        pair_outcome(*config, source, destination, r),
{
    let DiffImage { path: source_path, image: source_image } = source;
    let DiffImage { path: destination_path, image: destination_image } = destination;
    match source_image {
        Err(e) => Err(RunError::Load(source_path, e)),
        Ok(a) => match destination_image {
            Err(e) => Err(RunError::Load(destination_path, e)),
            Ok(b) => compare_loaded(config, source_path, destination_path, &a, &b),
        },
    }
}

/// Loading the same bytes as two files of the same kind and comparing them
/// either fails to load, or reports a zero score with no difference image.
pub proof fn identical_files_compare_equal(
    config: Config,
    source: DiffImage,
    destination: DiffImage,
    bytes: Vec<u8>,
    r: Result<PairOutcome, RunError>,
)
    requires
        kind_of_path(source.path@) == kind_of_path(destination.path@),
        load_outcome(kind_of_path(source.path@), Ok(bytes), source.image),
        load_outcome(kind_of_path(destination.path@), Ok(bytes), destination.image),
        pair_outcome(config, source, destination, r),
    ensures
        source.image is Ok ==> (r matches Ok(PairOutcome::Compared { score, artifact: None, .. })
            && score.difference == 0),
        source.image is Err ==> r matches Err(RunError::Load(..)),
{
    if source.image is Ok {
        let a = source.image->Ok_0;
        let b = destination.image->Ok_0;
        assert(a.pixels@ == b.pixels@ && a.width == b.width && a.height == b.height);
        identical_images_score_zero(&a);
    }
}

/// The phases of a run.
#[derive(Debug)]
pub enum RunState {
    /// Not started.
    Idle,
    /// The source tree is being walked for pairs.
    Discovering,
    /// Loaded pairs are arriving, in the order they were found.
    Streaming,
    /// Every pair was handled.
    Done,
    /// The run stopped at its first fatal error.
    Failed(RunError),
}

/// What the caller reports to a run.
#[derive(Debug)]
pub enum RunEvent {
    /// The run is asked to begin.
    Start,
    /// The pairs were found; loading them has begun.
    Discovered,
    /// Walking the source tree failed.
    DiscoveryFailed(String),
    /// The next pair was loaded.
    PairLoaded(DiffImage, DiffImage),
    /// Writing a difference image failed.
    OutputFailed(String),
    /// No pair is left.
    StreamEnded,
}

/// What the caller is to do next.
#[derive(Debug)]
pub enum RunAction {
    /// Walk the source tree, then start loading the pairs found.
    Discover,
    /// Report a compared or skipped pair, writing its difference image if
    /// there is one.
    Report(PairOutcome),
    /// Nothing is to be done for this event; wait for the next one.
    Continue,
    /// The run has ended with every pair handled.
    Finish,
    /// The run has failed; its state holds the error.
    Stop,
}

/// Whether a run in `state` acts on `event`; any other event leaves it as
/// it is.
pub open spec fn accepts(state: RunState, event: RunEvent) -> bool {
    ||| state is Idle && event is Start
    ||| state is Discovering && (event is Discovered || event is DiscoveryFailed)
    ||| state is Streaming && (event is PairLoaded || event is OutputFailed || event is StreamEnded)
}

impl RunState {
    /// A run that has not started.
    pub fn new() -> (r: RunState)
        ensures
            r is Idle,
    {
        RunState::Idle
    }

    /// Whether the run has reached `Done` or `Failed`.
    pub fn is_finished(&self) -> (r: bool)
        ensures
            r == (self is Done || self is Failed),
    {
        match self {
            RunState::Done => true,
            RunState::Failed(_) => true,
            _ => false,
        }
    }

    /// Moves the run on by one event and says what the caller is to do.
    pub fn step(&mut self, config: &Config, event: RunEvent) -> (r: RunAction)
        requires
            event matches RunEvent::PairLoaded(s, d) ==> (s.image matches Ok(a) ==> a.wf()) && (
            d.image matches Ok(b) ==> b.wf()),
        ensures
            (*old(self)) is Idle && event is Start ==> (*final(self)) is Discovering && r is Discover,
            (*old(self)) is Discovering && event is Discovered ==> (*final(self)) is Streaming
                && r is Continue,
            (*old(self)) is Discovering ==> (event matches RunEvent::DiscoveryFailed(m)
                ==> *final(self) == RunState::Failed(RunError::Discovery(m)) && r is Stop),
            (*old(self)) is Streaming ==> (event matches RunEvent::PairLoaded(s, d) ==> match r {
                RunAction::Report(o) => (*final(self)) is Streaming && pair_outcome(
                    *config,
                    s,
                    d,
                    Ok(o),
                ),
                RunAction::Stop => (*final(self)) is Failed && pair_outcome(
                    *config,
                    s,
                    d,
                    Err((*final(self))->Failed_0),
                ),
                _ => false,
            }),
            (*old(self)) is Streaming ==> (event matches RunEvent::OutputFailed(m) ==> *final(self)
                == RunState::Failed(RunError::Output(m)) && r is Stop),
            (*old(self)) is Streaming && event is StreamEnded ==> (*final(self)) is Done && r is Finish,
            !accepts(*old(self), event) ==> *final(self) == *old(self) && r is Continue,
    {
        match event {
            RunEvent::Start => {
                if let RunState::Idle = *self {
                    *self = RunState::Discovering;
                    return RunAction::Discover;
                }
            },
            RunEvent::Discovered => {
                if let RunState::Discovering = *self {
                    *self = RunState::Streaming;
                    return RunAction::Continue;
                }
            },
            RunEvent::DiscoveryFailed(m) => {
                if let RunState::Discovering = *self {
                    *self = RunState::Failed(RunError::Discovery(m));
                    return RunAction::Stop;
                }
            },
            RunEvent::PairLoaded(s, d) => {
                if let RunState::Streaming = *self {
                    match diff_pair(config, s, d) {
                        Ok(o) => {
                            return RunAction::Report(o);
                        },
                        Err(e) => {
                            *self = RunState::Failed(e);
                            return RunAction::Stop;
                        },
                    }
                }
            },
            RunEvent::OutputFailed(m) => {
                if let RunState::Streaming = *self {
                    *self = RunState::Failed(RunError::Output(m));
                    return RunAction::Stop;
                }
            },
            RunEvent::StreamEnded => {
                if let RunState::Streaming = *self {
                    *self = RunState::Done;
                    return RunAction::Finish;
                }
            },
        }
        RunAction::Continue
    }
}

} // verus!
