//! The copy handler, which serves store and restore alike: which way files
//! go is decided by the context alone.
//!
//! Nothing here touches the filesystem or starts a process. Each function
//! takes what was found out there and says what is to be done next, or how
//! the action ended.

use vstd::prelude::*;
use crate::command::{command_line, shell_prefix, texts_view, words_of};
use crate::context::{Context, PairView};
use crate::domain::opt_text_view;
use crate::error::VacuumError;
use crate::path::{joined, parent_of, path_of, Location, LocationView};

verus! {

/// One file to copy: from `source` to `target`.
#[derive(Debug, PartialEq, Eq)]
pub struct CopyJob {
    pub source: Location,
    pub target: Location,
}

impl View for CopyJob {
    type V = PairView;

    open spec fn view(&self) -> PairView {
        PairView { source: self.source@, target: self.target@ }
    }
}

/// What comes next in the copy of one file.
#[derive(Debug, PartialEq, Eq)]
pub enum CopyStep {
    /// The action is over, with this outcome; nothing more is to be touched.
    Finish(Result<(), VacuumError>),
    /// Create the directory, with the directories above it.
    MakeDirectory(Location),
    /// Copy the bytes of `source` to `target`, over whatever is there.
    Copy { source: Location, target: Location },
    /// The target has no directory above it, so there is no place to copy to.
    NoParent,
}

/// Mathematical value of a [`CopyStep`].
pub enum CopyStepView {
    Finish(Result<(), VacuumError>),
    MakeDirectory(LocationView),
    Copy { source: LocationView, target: LocationView },
    NoParent,
}

impl View for CopyStep {
    type V = CopyStepView;

    open spec fn view(&self) -> CopyStepView {
        match self {
            CopyStep::Finish(outcome) => CopyStepView::Finish(*outcome),
            CopyStep::MakeDirectory(directory) => CopyStepView::MakeDirectory(directory@),
            CopyStep::Copy { source, target } => CopyStepView::Copy { source: source@, target: target@ },
            CopyStep::NoParent => CopyStepView::NoParent,
        }
    }
}

/// The first step of a copy whose source is there: make the directory of the target.
pub open spec fn directory_step(job: PairView) -> CopyStepView {
    match parent_of(job.target) {
        Some(directory) => CopyStepView::MakeDirectory(directory),
        None => CopyStepView::NoParent,
    }
}

/// An outcome of the filesystem as an outcome of the action.
pub open spec fn io_outcome(result: Result<(), String>) -> Result<(), VacuumError> {
    match result {
        Ok(_) => Ok(()),
        Err(message) => Err(VacuumError::IoError(message)),
    }
}

impl CopyJob {
    /// First step for a `file` action. A source that is not there is no
    /// error: the action is over, with success, and nothing is touched.
    pub fn start(&self, source_exists: bool) -> (step: CopyStep)
        ensures
            !source_exists ==> step@ == CopyStepView::Finish(Ok(())),
            source_exists ==> step@ == directory_step(self@),
    {
        if !source_exists {
            return CopyStep::Finish(Ok(()));
        }
        self.directory()
    }

    /// First step for one match of a `files` action. A match that is a
    /// directory is passed over: the copy is over, with success, and nothing
    /// is touched.
    pub fn start_match(&self, is_directory: bool) -> (step: CopyStep)
        ensures
            is_directory ==> step@ == CopyStepView::Finish(Ok(())),
            !is_directory ==> step@ == directory_step(self@),
    {
        if is_directory {
            return CopyStep::Finish(Ok(()));
        }
        self.directory()
    }

    fn directory(&self) -> (step: CopyStep)
        ensures
            step@ == directory_step(self@),
    {
        match self.target.parent() {
            Some(directory) => CopyStep::MakeDirectory(directory),
            None => CopyStep::NoParent,
        }
    }

    /// The step after the directory was asked for. Where it could be made,
    /// the file is copied. Where not, the action ends with that failure and
    /// nothing is copied.
    pub fn made_directory(&self, made: Result<(), String>) -> (step: CopyStep)
        ensures
            step@ == match made {
                Ok(_) => CopyStepView::Copy { source: self@.source, target: self@.target },
                Err(message) => CopyStepView::Finish(Err(VacuumError::IoError(message))),
            },
    {
        match made {
            Ok(_) => CopyStep::Copy { source: self.source.duplicate(), target: self.target.duplicate() },
            Err(message) => CopyStep::Finish(Err(VacuumError::IoError(message))),
        }
    }

    /// How the action ends once the copy was tried.
    pub fn copied(copy: Result<(), String>) -> (outcome: Result<(), VacuumError>)
        ensures
            outcome == io_outcome(copy),
    {
        match copy {
            Ok(_) => Ok(()),
            Err(message) => Err(VacuumError::IoError(message)),
        }
    }
}

/// What comes next in a `files` action, whose copies are made one after the other.
#[derive(Debug, PartialEq, Eq)]
pub enum FilesStep {
    /// The action is over, with this outcome; no further copy is made.
    Finish(Result<(), VacuumError>),
    /// Make the copy with this index.
    Run(usize),
}

/// The first step of a `files` action with `count` copies: the first copy,
/// or the end, with success, where nothing matched.
pub fn first_job(count: usize) -> (step: FilesStep)
    ensures
        step == (if count > 0 {
            FilesStep::Run(0)
        } else {
            FilesStep::Finish(Ok(()))
        }),
{
    if count > 0 {
        FilesStep::Run(0)
    } else {
        FilesStep::Finish(Ok(()))
    }
}

/// The step after the copy `index` of `count` ended with `outcome`. The
/// first copy that fails ends the whole action with its failure, and the
/// copies after it are not made; what was copied before stays.
pub fn next_job(count: usize, index: usize, outcome: Result<(), VacuumError>) -> (step: FilesStep)
    requires
        index < count,
    ensures
        step == match outcome {
            Err(e) => FilesStep::Finish(Err(e)),
            Ok(_) => if index + 1 < count {
                FilesStep::Run((index + 1) as usize)
            } else {
                FilesStep::Finish(Ok(()))
            },
        },
{
    match outcome {
        Err(e) => FilesStep::Finish(Err(e)),
        Ok(_) => if index + 1 < count {
            FilesStep::Run(index + 1)
        } else {
            FilesStep::Finish(Ok(()))
        },
    }
}

/// A process to start: the program and its arguments.
#[derive(Debug, PartialEq, Eq)]
pub struct Launch {
    pub program: String,
    pub arguments: Vec<String>,
}

/// What comes next once a command has run.
#[derive(Debug, PartialEq, Eq)]
pub enum RunStep {
    /// The action is over, with this outcome; nothing is written.
    Finish(Result<(), VacuumError>),
    /// Write the captured output of the command to this file.
    Write(Location),
}

/// Mathematical value of a [`RunStep`].
pub enum RunStepView {
    Finish(Result<(), VacuumError>),
    Write(LocationView),
}

impl View for RunStep {
    type V = RunStepView;

    open spec fn view(&self) -> RunStepView {
        match self {
            RunStep::Finish(outcome) => RunStepView::Finish(*outcome),
            RunStep::Write(file) => RunStepView::Write(file@),
        }
    }
}

/// The step after a command has run. `run` is the failure to start it, or
/// whether it ended with status zero. Output is kept only after status zero
/// and only where a file is named for it; any other status ends the action
/// with success and without a file.
pub open spec fn run_step(target: LocationView, capture: Option<Seq<char>>, run: Result<bool, String>) -> RunStepView {
    match run {
        Err(message) => RunStepView::Finish(Err(VacuumError::ProcessError(message))),
        Ok(false) => RunStepView::Finish(Ok(())),
        Ok(true) => match capture {
            Some(name) => RunStepView::Write(joined(target, path_of(name))),
            None => RunStepView::Finish(Ok(())),
        },
    }
}

/// The copy handler of one app.
pub struct FileSystemExecutor {
    name: String,
}

impl FileSystemExecutor {
    /// The app that the handler works for.
    pub closed spec fn app_name(&self) -> Seq<char> {
        self.name@
    }

    /// The handler for the app called `name`.
    pub fn new(name: String) -> (r: Self)
        ensures
            r.app_name() == name@,
    {
        Self { name }
    }

    /// The name of the app, for the lines that tell what was done.
    pub fn name(&self) -> (r: &String)
        ensures
            r@ == self.app_name(),
    {
        &self.name
    }

    /// The copy that a `file` action asks for: the file `file_name`, one
    /// level below the source and the target of the context.
    pub fn handle_file<C: Context<Current = (Location, Location)>>(&self, ctx: &C, file_name: &str) -> (job: CopyJob)
        ensures
            (job@.source, job@.target) == C::current_of(C::at_sub(ctx@, file_name@)),
    {
        let (source, target) = ctx.sub(file_name).current();
        CopyJob { source, target }
    }

    /// The copies that a `files` action asks for, one for each match, in the
    /// order of the matches: from the match to the place below the target
    /// that the match has below the source. None where a match does not lie
    /// below the source of the context.
    pub fn handle_files<C: Context<Current = (Location, Location)>>(&self, ctx: &C, found: &Vec<Location>) -> (r: Option<Vec<CopyJob>>)
        ensures
            r is Some == C::all_covered(ctx@, found@),
            r matches Some(jobs) ==> {
                &&& jobs@.len() == found@.len()
                &&& forall|i: int|
                    0 <= i < found@.len() ==> ((#[trigger] jobs@[i])@.source, jobs@[i]@.target) == C::current_of(
                        C::at_match(ctx@, found@[i]@),
                    )
            },
    {
        if !ctx.covered(found) {
            return None;
        }
        let children = ctx.search(found);
        let mut jobs: Vec<CopyJob> = Vec::new();
        let mut i: usize = 0;
        while i < children.len()
            invariant
                i <= children@.len() == found@.len(),
                jobs@.len() == i,
                forall|k: int| 0 <= k < found@.len() ==> (#[trigger] children@[k])@ == C::at_match(ctx@, found@[k]@),
                forall|k: int|
                    0 <= k < i ==> ((#[trigger] jobs@[k])@.source, jobs@[k]@.target) == C::current_of(
                        C::at_match(ctx@, found@[k]@),
                    ),
            decreases children@.len() - i,
        {
            let (source, target) = children[i].current();
            jobs.push(CopyJob { source, target });
            i += 1;
        }
        Some(jobs)
    }

    /// The process that an `exec` action asks for: the first word of the
    /// command line is the program, the others are its arguments. None for a
    /// command without words.
    pub fn handle_execute(&self, command: &str, windows: bool) -> (launch: Option<Launch>)
        ensures
            ({
                let line = shell_prefix(windows) + words_of(command@);
                match launch {
                    Some(l) => line.len() > 0 && l.program@ == line[0] && texts_view(l.arguments@) == line.skip(1),
                    None => line.len() == 0,
                }
            }),
    {
        let mut line = command_line(command, windows);
        if line.len() == 0 {
            return None;
        }
        let ghost all = texts_view(line@);
        let program = line.remove(0);
        assert(texts_view(line@) =~= all.skip(1));
        Some(Launch { program, arguments: line })
    }

    /// The step after the command has run: see [`run_step`].
    pub fn ran<C: Context<Current = (Location, Location)>>(&self, ctx: &C, capture: &Option<String>, run: Result<bool, String>) -> (step: RunStep)
        ensures
            step@ == run_step(C::current_of(ctx@).1, opt_text_view(*capture), run),
    {
        match run {
            Err(message) => RunStep::Finish(Err(VacuumError::ProcessError(message))),
            Ok(false) => RunStep::Finish(Ok(())),
            Ok(true) => match capture {
                Some(name) => {
                    let (_, target) = ctx.current();
                    RunStep::Write(target.sub(name.as_str()))
                },
                None => RunStep::Finish(Ok(())),
            },
        }
    }

    /// How the action ends once the output was written.
    pub fn wrote(&self, write: Result<(), String>) -> (outcome: Result<(), VacuumError>)
        ensures
            outcome == crate::file_system_executor::io_outcome(write),
    {
        match write {
            Ok(_) => Ok(()),
            Err(message) => Err(VacuumError::IoError(message)),
        }
    }
}

} // verus!
