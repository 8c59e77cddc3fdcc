//! The commands that compact a repository, and the command that measures it.
use vstd::prelude::*;

verus! {

/// One of the three steps that compact a repository. They run in the order
/// in which they stand here: each widens what the next may discard.
#[derive(Clone, Copy, Debug, PartialEq, Eq, Structural)]
pub enum CompactionStep {
    /// Expire the reflog entries of all references that are older than a
    /// minute, so that the commits they held become unreachable.
    ExpireReflog,
    /// Pack all references and prune the loose ones.
    PackRefs,
    /// Collect garbage aggressively and prune unreachable objects at once.
    CollectGarbage,
}

/// The arguments with which the tool carries out a step.
pub open spec fn step_arguments(step: CompactionStep) -> Seq<Seq<char>> {
    match step {
        CompactionStep::ExpireReflog => seq![
            "reflog"@,
            "expire"@,
            "--expire=1.minute"@,
            "--all"@,
        ],
        CompactionStep::PackRefs => seq!["pack-refs"@, "--all"@, "--prune"@],
        CompactionStep::CollectGarbage => seq!["gc"@, "--aggressive"@, "--prune=now"@],
    }
}

/// The arguments with which the tool reports the object counts and sizes of
/// a repository.
pub open spec fn measure_arguments_spec() -> Seq<Seq<char>> {
    seq!["count-objects"@, "-v"@]
}

/// The views of a list of arguments.
pub open spec fn argument_views(arguments: Seq<&'static str>) -> Seq<Seq<char>> {
    Seq::new(arguments.len(), |i: int| arguments[i]@)
}

impl CompactionStep {
    /// The place of a step in the order of the three.
    pub open spec fn position(self) -> nat {
        match self {
            CompactionStep::ExpireReflog => 0,
            CompactionStep::PackRefs => 1,
            CompactionStep::CollectGarbage => 2,
        }
    }

    /// The step that follows, if there is one.
    pub open spec fn following(self) -> Option<CompactionStep> {
        match self {
            CompactionStep::ExpireReflog => Some(CompactionStep::PackRefs),
            CompactionStep::PackRefs => Some(CompactionStep::CollectGarbage),
            CompactionStep::CollectGarbage => None,
        }
    }

    /// The step with which compaction begins.
    pub fn first() -> (step: CompactionStep)
        ensures
            step == CompactionStep::ExpireReflog,
            step.position() == 0,
    {
        CompactionStep::ExpireReflog
    }

    /// The step that follows this one: the next in the order, and none after
    /// the last.
    pub fn next(self) -> (step: Option<CompactionStep>)
        ensures
            step == self.following(),
            step matches Some(next) ==> next.position() == self.position() + 1,
            step is None <==> self.position() == 2,
    {
        match self {
            CompactionStep::ExpireReflog => Some(CompactionStep::PackRefs),
            CompactionStep::PackRefs => Some(CompactionStep::CollectGarbage),
            CompactionStep::CollectGarbage => None,
        }
    }

    /// The arguments to run the tool with for this step.
    pub fn arguments(self) -> (arguments: Vec<&'static str>)
        ensures
            argument_views(arguments@) == step_arguments(self),
    {
        let arguments = match self {
            CompactionStep::ExpireReflog => vec!["reflog", "expire", "--expire=1.minute", "--all"],
            CompactionStep::PackRefs => vec!["pack-refs", "--all", "--prune"],
            CompactionStep::CollectGarbage => vec!["gc", "--aggressive", "--prune=now"],
        };
        assert(argument_views(arguments@) =~= step_arguments(self));
        arguments
    }
}

/// The name of the tool that measures and compacts repositories.
pub fn tool_name() -> (name: &'static str)
    ensures
        name@ == "git"@,
{
    "git"
}

/// The arguments to run the tool with for a size report.
pub fn measure_arguments() -> (arguments: Vec<&'static str>)
    ensures
        argument_views(arguments@) == measure_arguments_spec(),
{
    let arguments = vec!["count-objects", "-v"];
    assert(argument_views(arguments@) =~= measure_arguments_spec());
    arguments
}

} // verus!
