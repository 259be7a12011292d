//! A model of the directories that an install touches, and what installs
//! and removals do to them when every operation the machines ask for is
//! carried out as the model says. Nothing here runs: these are statements
//! about the machines of [`crate::installer`], proved for every course that
//! an install or a removal can take.
//!
//! The model knows the destination root as a map from names to trees, the
//! directories beside the staging file by name, each with its entries, and
//! the archive as the entries that unpacking it adds to a directory. It
//! takes the making of a directory to succeed only where the name is free, a
//! listing to show what is there, a probe to answer truly, a rename to put
//! the payload under the target's name, and a copy to perform the operations
//! of [`crate::copy::plan`] on what the target held. Any operation may fail.
//! What the directories hold when the install starts may be anything, the
//! leavings of other installs among it; nothing else touches them while the
//! install goes on.

use crate::archive::{first_dir_from, format_of, lemma_payload_index, DirEntry};
use crate::copy::{
    copied_tree, is_plain, lemma_plain_is_copied_whole, lemma_plan_realizes, plan, realize,
    tree_of, ChildView, Item, Path, Tree,
};
use crate::error::InstallError;
use crate::installer::{
    removal_transition, transition, Job, Outcome, Phase, RemovalPhase, StepView,
};
use vstd::prelude::*;

verus! {

/// The entries of a directory by name, each with the tree below it.
pub type Entries = Map<Seq<char>, Tree>;

/// A directory that may not exist.
pub type Root = Option<Entries>;

/// The directories that an install works on.
pub struct World {
    /// The destination root.
    pub root: Root,
    /// The directories beside the staging file, by name, each with its
    /// entries in the order in which they are listed.
    pub scratch: Map<Seq<char>, Seq<ChildView>>,
}

/// The entries of a root; none where it does not exist.
pub open spec fn entries_of(root: Root) -> Entries {
    match root {
        Some(entries) => entries,
        None => Map::empty(),
    }
}

/// Whether the root exists and has an entry of the given name.
pub open spec fn holds(root: Root, name: Seq<char>) -> bool {
    root is Some && root->Some_0.contains_key(name)
}

/// What an install is given.
pub struct Setting {
    pub url: Seq<char>,
    pub token: u64,
    pub staged: bool,
    /// The name that the payload gets under the root.
    pub target: Seq<char>,
    /// The entries that unpacking the archive gives, in the order in which
    /// they are listed.
    pub archive: Seq<ChildView>,
}

impl Setting {
    /// What the installer is given.
    pub open spec fn job(self) -> Job {
        Job { url: self.url, token: self.token, staged: self.staged }
    }
}

/// The position of the first directory at or after `from` among the
/// unpacked entries.
pub open spec fn first_unpacked_dir(archive: Seq<ChildView>, from: int) -> Option<int>
    decreases archive.len() - from,
{
    if from < 0 || from >= archive.len() {
        None
    } else if archive[from].node is Dir {
        Some(from)
    } else {
        first_unpacked_dir(archive, from + 1)
    }
}

/// The position of the archive's payload: that of the first directory
/// among the unpacked entries.
pub open spec fn payload_of(archive: Seq<ChildView>) -> Option<int> {
    first_unpacked_dir(archive, 0)
}

/// Whether a listing shows the entries of a directory: as many, in the
/// same order, directories as directories.
pub open spec fn shows(listing: Seq<DirEntry>, entries: Seq<ChildView>) -> bool {
    &&& listing.len() == entries.len()
    &&& forall|i: int|
        0 <= i < listing.len() ==> (#[trigger] listing[i]).is_dir == (entries[i].node is Dir)
}

/// A listing that shows the unpacked entries has its first directory where
/// they have theirs.
pub proof fn lemma_listing_finds_payload(
    listing: Seq<DirEntry>,
    archive: Seq<ChildView>,
    from: int,
)
    requires
        shows(listing, archive),
        0 <= from,
    ensures
        first_dir_from(listing, from) == first_unpacked_dir(archive, from),
    decreases listing.len() - from,
{
    if from < listing.len() {
        assert(listing[from].is_dir == (archive[from].node is Dir));
        if !listing[from].is_dir {
            lemma_listing_finds_payload(listing, archive, from + 1);
        }
    }
}

/// The tree that the target holds; nothing where there is no target.
pub open spec fn held(root: Root, target: Seq<char>) -> Tree {
    if holds(root, target) {
        root->Some_0[target]
    } else {
        Map::empty()
    }
}

/// Whether two roots agree on every name but `target`.
pub open spec fn same_elsewhere(a: Root, b: Root, target: Seq<char>) -> bool {
    entries_of(a).remove(target) == entries_of(b).remove(target)
}

/// Whether carrying out `step` can end with `outcome` and turn `before`
/// into `after`, for an install whose extraction directory is `dir`.
pub open spec fn performs(
    setting: Setting,
    dir: Seq<char>,
    step: StepView,
    before: World,
    outcome: Outcome,
    after: World,
) -> bool {
    let target = setting.target;
    match step {
        StepView::MakeDir { dir_name } => if outcome is Done {
            &&& !before.scratch.contains_key(dir_name)
            &&& after == (World {
                scratch: before.scratch.insert(dir_name, Seq::empty()),
                ..before
            })
        } else {
            &&& after == before
            &&& outcome == Outcome::Exists(true) ==> before.scratch.contains_key(dir_name)
        },
        StepView::Extract { dir_name, .. } => {
            &&& after.root == before.root
            &&& outcome is Done ==> before.scratch.contains_key(dir_name) && after.scratch
                == before.scratch.insert(dir_name, before.scratch[dir_name] + setting.archive)
        },
        StepView::ListExtracted => {
            &&& after == before
            &&& outcome matches Outcome::Listed(listing) ==> before.scratch.contains_key(dir)
                && shows(listing@, before.scratch[dir])
        },
        StepView::CreateRoot => {
            &&& after.scratch == before.scratch
            &&& if outcome is Done {
                after.root == Some(entries_of(before.root))
            } else {
                after.root == before.root
            }
        },
        StepView::ProbeTarget => after == before && outcome == Outcome::Exists(
            holds(before.root, target),
        ),
        StepView::RemoveTarget => {
            &&& after.scratch == before.scratch
            &&& if outcome is Done {
                before.root is Some && after.root == Some(entries_of(before.root).remove(target))
            } else {
                same_elsewhere(before.root, after.root, target)
            }
        },
        StepView::Rename { payload } => if outcome is Done {
            &&& before.root is Some
            &&& before.scratch.contains_key(dir)
            &&& payload < before.scratch[dir].len()
            &&& after.root == Some(
                entries_of(before.root).insert(
                    target,
                    tree_of(before.scratch[dir][payload as int].node, Seq::empty()),
                ),
            )
        } else {
            after == before
        },
        StepView::Copy { payload } => {
            &&& after.scratch == before.scratch
            &&& if outcome is Done {
                &&& before.root is Some
                &&& before.scratch.contains_key(dir)
                &&& payload < before.scratch[dir].len()
                &&& after.root == Some(
                    entries_of(before.root).insert(
                        target,
                        realize(
                            plan(before.scratch[dir][payload as int].node, Seq::empty()),
                            held(before.root, target),
                        ),
                    ),
                )
            } else {
                same_elsewhere(before.root, after.root, target)
            }
        },
        StepView::Download { .. } => after == before,
        _ => after.root == before.root,
    }
}

/// An install under way: how many names for its extraction directory it
/// has found taken, its phase, the step that was asked for last, and the
/// directories as they are.
pub struct Stage {
    pub attempt: u64,
    pub phase: Phase,
    pub pending: StepView,
    pub world: World,
}

/// The stage of an install that has just started on `world`.
pub open spec fn first_stage(setting: Setting, world: World) -> Stage {
    let first = transition(setting.job(), 0, Phase::Idle, Outcome::Done);
    Stage { attempt: first.attempt, phase: first.phase, pending: first.step, world }
}

/// Whether the stage `b` can follow the stage `a`: the pending step was
/// carried out with `outcome`, and the installer took that outcome.
pub open spec fn follows(setting: Setting, a: Stage, outcome: Outcome, b: Stage) -> bool {
    let next = transition(setting.job(), a.attempt, a.phase, outcome);
    &&& performs(setting, setting.job().dir(a.attempt), a.pending, a.world, outcome, b.world)
    &&& b.attempt == next.attempt
    &&& b.phase == next.phase
    &&& b.pending == next.step
}

/// Whether `stages` is a course that an install started on `start` can
/// take.
pub open spec fn is_install(setting: Setting, start: World, stages: Seq<Stage>) -> bool
    decreases stages.len(),
{
    if stages.len() == 0 {
        false
    } else if stages.len() == 1 {
        stages[0] == first_stage(setting, start)
    } else {
        let previous = stages[stages.len() - 2];
        let last = stages.last();
        &&& is_install(setting, start, stages.drop_last())
        &&& exists|outcome: Outcome| #[trigger] follows(setting, previous, outcome, last)
    }
}

/// Whether the course has copied the payload into place: it has a stage
/// at which the unpacked payload is removed after the copy.
pub open spec fn took_copy(stages: Seq<Stage>) -> bool {
    exists|i: int| 0 <= i < stages.len() && (#[trigger] stages[i]).phase is DroppingPayload
}

/// Whether `tree` is the payload of the archive, whole or as a copy brings
/// it over.
pub open spec fn is_payload_tree(setting: Setting, tree: Tree) -> bool {
    payload_of(setting.archive) matches Some(p) && (tree == tree_of(
        setting.archive[p].node,
        Seq::empty(),
    ) || tree == copied_tree(setting.archive[p].node, Seq::empty()))
}

/// Whether the install's payload stands under the target's name in
/// `after`, and every other name is as in `before`.
pub open spec fn is_placed(setting: Setting, before: Root, after: Root) -> bool {
    &&& holds(after, setting.target)
    &&& is_payload_tree(setting, after->Some_0[setting.target])
    &&& after->Some_0 == entries_of(before).insert(setting.target, after->Some_0[setting.target])
}

/// Whether an install in `phase` has its archive there and told its
/// format.
pub open spec fn is_past_download(phase: Phase) -> bool {
    !(phase is Idle || phase is Downloading || phase == Phase::Failed(InstallError::DownloadFailed)
        || phase == Phase::Failed(InstallError::UnsupportedFormat))
}

/// Whether the extraction directory of the stage is of this install's own
/// making: it was not there when the install started.
pub open spec fn is_own_dir(setting: Setting, start: World, stage: Stage) -> bool {
    !start.scratch.contains_key(setting.job().dir(stage.attempt))
}

/// Whether the extraction directory of the stage is of this install's own
/// making and holds what the archive unpacks to, and nothing else.
pub open spec fn is_unpacked(setting: Setting, start: World, stage: Stage) -> bool {
    let dir = setting.job().dir(stage.attempt);
    &&& is_own_dir(setting, start, stage)
    &&& stage.world.scratch.contains_key(dir)
    &&& stage.world.scratch[dir] == setting.archive
}

/// What holds of every stage of an install started on `start`.
pub open spec fn install_invariant(setting: Setting, start: World, stage: Stage) -> bool {
    let format = format_of(crate::text::last_segment(setting.url));
    &&& is_past_download(stage.phase) ==> format is Some
    &&& stage.phase == Phase::Failed(InstallError::UnsupportedFormat) ==> format is None
    &&& stage.phase == Phase::Failed(InstallError::NoPayloadDirectory) ==> payload_of(
        setting.archive,
    ) is None
    &&& stage_invariant(setting, start, stage)
}

/// What holds of the directories and of the pending step at every stage
/// of an install started on `start`.
pub open spec fn stage_invariant(setting: Setting, start: World, stage: Stage) -> bool {
    let dir = setting.job().dir(stage.attempt);
    let root = stage.world.root;
    let found = |payload: usize| payload_of(setting.archive) == Some(payload as int);
    let unpacked = is_unpacked(setting, start, stage);
    let made = Some(entries_of(start.root));
    let cleared = Some(entries_of(start.root).remove(setting.target));
    match stage.phase {
        Phase::Idle => false,
        Phase::Downloading => stage.world == start && stage.pending is Download,
        Phase::MakingDir => stage.world == start && stage.pending == (StepView::MakeDir {
            dir_name: dir,
        }),
        Phase::Extracting => {
            &&& root == start.root
            &&& is_own_dir(setting, start, stage)
            &&& stage.world.scratch.contains_key(dir)
            &&& stage.world.scratch[dir] == Seq::<ChildView>::empty()
            &&& stage.pending matches StepView::Extract { dir_name, .. } && dir_name == dir
        },
        Phase::Listing => root == start.root && unpacked && stage.pending is ListExtracted,
        Phase::CreatingRoot { payload } => root == start.root && unpacked && stage.pending
            is CreateRoot && found(payload),
        Phase::Probing { payload } => root == made && unpacked && stage.pending is ProbeTarget
            && found(payload),
        Phase::Clearing { payload } => root == made && unpacked && stage.pending is RemoveTarget
            && found(payload),
        Phase::Renaming { payload } => root == cleared && unpacked && stage.pending
            == (StepView::Rename { payload }) && found(payload),
        Phase::Copying { payload } => root == cleared && unpacked && stage.pending
            == (StepView::Copy { payload }) && found(payload),
        Phase::DroppingPayload => is_placed(setting, start.root, root) && stage.pending
            is RemovePayload,
        Phase::DroppingExtracted => is_placed(setting, start.root, root) && stage.pending
            is RemoveExtracted,
        Phase::DroppingArchive => is_placed(setting, start.root, root) && stage.pending
            is RemoveArchive,
        Phase::Installed => is_placed(setting, start.root, root) && stage.pending is Finished,
        Phase::Failed(error) => stage.pending is Failed && if error == InstallError::Filesystem {
            same_elsewhere(start.root, root, setting.target)
        } else {
            root == start.root
        },
    }
}

/// A step of an install keeps what holds of every stage.
pub proof fn lemma_install_step(
    setting: Setting,
    start: World,
    a: Stage,
    outcome: Outcome,
    b: Stage,
)
    requires
        install_invariant(setting, start, a),
        follows(setting, a, outcome, b),
    ensures
        install_invariant(setting, start, b),
{
    let base = entries_of(start.root);
    let target = setting.target;
    let dir = setting.job().dir(a.attempt);
    match a.phase {
        Phase::Extracting => {
            if outcome is Done {
                assert(Seq::<ChildView>::empty() + setting.archive =~= setting.archive);
            }
        },
        Phase::Listing => {
            if let Outcome::Listed(listing) = outcome {
                lemma_listing_finds_payload(listing@, setting.archive, 0);
                lemma_payload_index(listing@, 0);
                assert(listing@.len() == listing.len());
            }
        },
        Phase::Probing { payload } => {
            if outcome != Outcome::Exists(true) {
                assert(base.remove(target) =~= base);
            }
        },
        Phase::Renaming { payload } => {
            if outcome is Done {
                let tree = tree_of(setting.archive[payload as int].node, Seq::empty());
                assert(base.remove(target).insert(target, tree) =~= base.insert(target, tree));
            }
        },
        Phase::Copying { payload } => {
            if outcome is Done {
                let node = setting.archive[payload as int].node;
                lemma_plan_realizes(node, Seq::empty(), Map::empty());
                let tree = copied_tree(node, Seq::empty());
                assert(Map::<Path, Item>::empty().union_prefer_right(tree) =~= tree);
                assert(base.remove(target).insert(target, tree) =~= base.insert(target, tree));
            } else {
                assert(base.remove(target).remove(target) =~= base.remove(target));
            }
        },
        _ => {},
    }
}

/// The first stage of an install has what holds of every stage.
pub proof fn lemma_install_start(setting: Setting, start: World)
    ensures
        install_invariant(setting, start, first_stage(setting, start)),
{
}

/// Every stage of an install has what holds of every stage.
pub proof fn lemma_install_course(setting: Setting, start: World, stages: Seq<Stage>)
    requires
        is_install(setting, start, stages),
    ensures
        install_invariant(setting, start, stages.last()),
    decreases stages.len(),
{
    if stages.len() > 1 {
        let earlier = stages.drop_last();
        lemma_install_course(setting, start, earlier);
        assert(earlier.last() == stages[stages.len() - 2]);
        let previous = stages[stages.len() - 2];
        let last = stages.last();
        let outcome = choose|outcome: Outcome| #[trigger] follows(setting, previous, outcome, last);
        lemma_install_step(setting, start, previous, outcome, last);
    } else {
        lemma_install_start(setting, start);
    }
}

/// An install unpacks into a directory of its own making and takes its
/// payload from there: from the unpacking on until the payload is in place,
/// the directory it works in was not there when it started, whatever other
/// directories were, and holds what its archive unpacks to and nothing else.
pub proof fn lemma_install_works_in_its_own_directory(
    setting: Setting,
    start: World,
    stages: Seq<Stage>,
)
    requires
        is_install(setting, start, stages),
    ensures
        stages.last().phase is Extracting ==> is_own_dir(setting, start, stages.last()),
        stages.last().phase is Listing || stages.last().phase is CreatingRoot
            || stages.last().phase is Probing || stages.last().phase is Clearing
            || stages.last().phase is Renaming || stages.last().phase is Copying ==> is_unpacked(
            setting,
            start,
            stages.last(),
        ),
{
    lemma_install_course(setting, start, stages);
}

/// A payload that was renamed into place is whole: on a course that has
/// not copied, what the target holds once the payload is placed is the
/// payload as the archive has it.
pub proof fn lemma_renamed_payload_is_whole(setting: Setting, start: World, stages: Seq<Stage>)
    requires
        is_install(setting, start, stages),
        !took_copy(stages),
        stages.last().phase is DroppingExtracted || stages.last().phase is DroppingArchive
            || stages.last().phase is Installed,
    ensures
        payload_of(setting.archive) is Some,
        held(stages.last().world.root, setting.target) == tree_of(
            setting.archive[payload_of(setting.archive)->Some_0].node,
            Seq::empty(),
        ),
    decreases stages.len(),
{
    lemma_install_course(setting, start, stages);
    if stages.len() > 1 {
        let earlier = stages.drop_last();
        let previous = stages[stages.len() - 2];
        let last = stages.last();
        assert(earlier.last() == previous);
        lemma_install_course(setting, start, earlier);
        let outcome = choose|outcome: Outcome| #[trigger] follows(setting, previous, outcome, last);
        assert(!(previous.phase is DroppingPayload));
        if took_copy(earlier) {
            let i = choose|i: int|
                0 <= i < earlier.len() && (#[trigger] earlier[i]).phase is DroppingPayload;
            assert(stages[i] == earlier[i]);
        }
        if previous.phase is Renaming {
            let tree = tree_of(
                setting.archive[payload_of(setting.archive)->Some_0].node,
                Seq::empty(),
            );
            assert(last.world.root->Some_0[setting.target] == tree);
        } else {
            lemma_renamed_payload_is_whole(setting, start, earlier);
        }
    }
}

/// After an install, the root has one entry by the target's name, which
/// is the archive's payload, and its other entries are what they were.
/// The payload is whole where it was renamed into place, and where all of
/// its entries are directories, files or links; otherwise it is what a copy
/// brings over.
pub proof fn lemma_install_places_payload(setting: Setting, start: World, stages: Seq<Stage>)
    requires
        is_install(setting, start, stages),
        stages.last().phase == Phase::Installed,
    ensures
        payload_of(setting.archive) is Some,
        holds(stages.last().world.root, setting.target),
        is_payload_tree(setting, held(stages.last().world.root, setting.target)),
        same_elsewhere(start.root, stages.last().world.root, setting.target),
        !took_copy(stages) || is_plain(setting.archive[payload_of(setting.archive)->Some_0].node)
            ==> held(stages.last().world.root, setting.target) == tree_of(
            setting.archive[payload_of(setting.archive)->Some_0].node,
            Seq::empty(),
        ),
{
    lemma_install_course(setting, start, stages);
    let root = stages.last().world.root;
    let tree = root->Some_0[setting.target];
    assert(entries_of(start.root).insert(setting.target, tree).remove(setting.target)
        =~= entries_of(start.root).remove(setting.target));
    let node = setting.archive[payload_of(setting.archive)->Some_0].node;
    if is_plain(node) {
        lemma_plain_is_copied_whole(node, Seq::empty());
    }
    if !took_copy(stages) {
        lemma_renamed_payload_is_whole(setting, start, stages);
    }
}

/// An install after an install under the same name leaves the second
/// archive's payload under that name, and nothing of the first's: what the
/// root then holds is what the second install alone would have left.
pub proof fn lemma_reinstall_replaces(
    first: Setting,
    second: Setting,
    start: World,
    once: Seq<Stage>,
    twice: Seq<Stage>,
)
    requires
        first.target == second.target,
        is_install(first, start, once),
        once.last().phase == Phase::Installed,
        is_install(second, once.last().world, twice),
        twice.last().phase == Phase::Installed,
    ensures
        is_placed(second, start.root, twice.last().world.root),
{
    lemma_install_course(first, start, once);
    lemma_install_course(second, once.last().world, twice);
    let target = second.target;
    let mid = once.last().world.root->Some_0;
    let end = twice.last().world.root->Some_0;
    assert(mid.insert(target, end[target]) =~= entries_of(start.root).insert(target, end[target]));
}

/// An install gets past the download only of an archive whose file name
/// has a supported suffix, fails with `UnsupportedFormat` only where it has
/// none, and fails with `NoPayloadDirectory` only where the unpacked archive
/// has no directory at its top.
pub proof fn lemma_install_failures_are_justified(
    setting: Setting,
    start: World,
    stages: Seq<Stage>,
)
    requires
        is_install(setting, start, stages),
    ensures
        stages.last().phase == Phase::Installed ==> format_of(
            crate::text::last_segment(setting.url),
        ) is Some && payload_of(setting.archive) is Some,
        stages.last().phase == Phase::Failed(InstallError::UnsupportedFormat) ==> format_of(
            crate::text::last_segment(setting.url),
        ) is None,
        stages.last().phase == Phase::Failed(InstallError::NoPayloadDirectory) ==> payload_of(
            setting.archive,
        ) is None,
{
    lemma_install_course(setting, start, stages);
}

/// An install that fails for want of a payload directory, of a supported
/// format or of the archive itself leaves the root as it was.
pub proof fn lemma_early_failure_leaves_root(setting: Setting, start: World, stages: Seq<Stage>)
    requires
        is_install(setting, start, stages),
        stages.last().phase matches Phase::Failed(error) && error != InstallError::Filesystem,
    ensures
        stages.last().world.root == start.root,
{
    lemma_install_course(setting, start, stages);
}

/// Whatever an install does, it leaves the entries under other names as
/// they were.
pub proof fn lemma_install_keeps_other_entries(setting: Setting, start: World, stages: Seq<Stage>)
    requires
        is_install(setting, start, stages),
    ensures
        same_elsewhere(start.root, stages.last().world.root, setting.target),
{
    lemma_install_course(setting, start, stages);
    let base = entries_of(start.root);
    let target = setting.target;
    let root = stages.last().world.root;
    assert(base.remove(target).remove(target) =~= base.remove(target));
    if is_placed(setting, start.root, root) {
        let tree = root->Some_0[target];
        assert(base.insert(target, tree).remove(target) =~= base.remove(target));
    }
}

/// A course goes on with any stage that can follow its last.
pub proof fn lemma_install_goes_on(
    setting: Setting,
    start: World,
    stages: Seq<Stage>,
    outcome: Outcome,
    next: Stage,
)
    requires
        is_install(setting, start, stages),
        follows(setting, stages.last(), outcome, next),
    ensures
        is_install(setting, start, stages.push(next)),
        stages.push(next).last() == next,
{
    let longer = stages.push(next);
    assert(longer.drop_last() =~= stages);
    assert(longer[longer.len() - 2] == stages.last());
}

/// Where the archive's file name has a supported suffix, the unpacked
/// archive has a directory at its top and the first name for the
/// extraction directory is free, an install can succeed: the course on
/// which every operation succeeds ends with the payload in place.
pub proof fn lemma_install_can_succeed(setting: Setting, start: World, listing: Vec<DirEntry>)
    requires
        format_of(crate::text::last_segment(setting.url)) is Some,
        payload_of(setting.archive) is Some,
        shows(listing@, setting.archive),
        !start.scratch.contains_key(setting.job().dir(0)),
    ensures
        exists|stages: Seq<Stage>| #[trigger]
            is_install(setting, start, stages) && stages.last().phase == Phase::Installed,
{
    lemma_listing_finds_payload(listing@, setting.archive, 0);
    lemma_payload_index(listing@, 0);
    assert(listing@.len() == listing.len());
    let job = setting.job();
    let dir = job.dir(0);
    let at = payload_of(setting.archive)->Some_0;
    let payload = at as usize;
    let target = setting.target;
    let stage = |phase: Phase, pending: StepView, world: World|
        Stage { attempt: 0, phase, pending, world };
    let making = stage(Phase::MakingDir, StepView::MakeDir { dir_name: dir }, start);
    let mut stages = seq![first_stage(setting, start)];
    if !setting.staged {
        lemma_install_goes_on(setting, start, stages, Outcome::Done, making);
        stages = stages.push(making);
    }
    assert(stages.last() == making);
    let empty = World { scratch: start.scratch.insert(dir, Seq::empty()), ..start };
    let next = stage(
        Phase::Extracting,
        StepView::Extract {
            format: format_of(crate::text::last_segment(setting.url))->Some_0,
            dir_name: dir,
        },
        empty,
    );
    lemma_install_goes_on(setting, start, stages, Outcome::Done, next);
    stages = stages.push(next);
    assert(Seq::<ChildView>::empty() + setting.archive =~= setting.archive);
    let full = World { scratch: empty.scratch.insert(dir, setting.archive), ..start };
    let next = stage(Phase::Listing, StepView::ListExtracted, full);
    lemma_install_goes_on(setting, start, stages, Outcome::Done, next);
    stages = stages.push(next);
    let next = stage(Phase::CreatingRoot { payload }, StepView::CreateRoot, full);
    lemma_install_goes_on(setting, start, stages, Outcome::Listed(listing), next);
    stages = stages.push(next);
    let made = World { root: Some(entries_of(start.root)), ..full };
    let next = stage(Phase::Probing { payload }, StepView::ProbeTarget, made);
    lemma_install_goes_on(setting, start, stages, Outcome::Done, next);
    stages = stages.push(next);
    let cleared = World { root: Some(entries_of(start.root).remove(target)), ..full };
    if holds(made.root, target) {
        let next = stage(Phase::Clearing { payload }, StepView::RemoveTarget, made);
        lemma_install_goes_on(setting, start, stages, Outcome::Exists(true), next);
        stages = stages.push(next);
        let next = stage(Phase::Renaming { payload }, StepView::Rename { payload }, cleared);
        lemma_install_goes_on(setting, start, stages, Outcome::Done, next);
        stages = stages.push(next);
    } else {
        assert(entries_of(start.root).remove(target) =~= entries_of(start.root));
        let next = stage(Phase::Renaming { payload }, StepView::Rename { payload }, cleared);
        lemma_install_goes_on(setting, start, stages, Outcome::Exists(false), next);
        stages = stages.push(next);
    }
    let placed = World {
        root: Some(
            entries_of(start.root).remove(target).insert(
                target,
                tree_of(setting.archive[at].node, Seq::empty()),
            ),
        ),
        ..full
    };
    let next = stage(Phase::DroppingExtracted, StepView::RemoveExtracted, placed);
    lemma_install_goes_on(setting, start, stages, Outcome::Done, next);
    stages = stages.push(next);
    if !setting.staged {
        let next = stage(Phase::DroppingArchive, StepView::RemoveArchive, placed);
        lemma_install_goes_on(setting, start, stages, Outcome::Done, next);
        stages = stages.push(next);
    }
    let next = stage(Phase::Installed, StepView::Finished, placed);
    lemma_install_goes_on(setting, start, stages, Outcome::Done, next);
    stages = stages.push(next);
    assert(is_install(setting, start, stages) && stages.last().phase == Phase::Installed);
}

/// A removal under way: its phase, the step that was asked for last, and
/// the root as it is.
pub struct RemovalStage {
    pub phase: RemovalPhase,
    pub pending: StepView,
    pub root: Root,
}

/// The stage of a removal that has just started on the root `root`.
pub open spec fn first_removal_stage(root: Root) -> RemovalStage {
    RemovalStage { phase: RemovalPhase::Probing, pending: StepView::ProbeTarget, root }
}

/// The setting in which a removal of `target` is carried out.
pub open spec fn removal_setting(target: Seq<char>) -> Setting {
    Setting { url: Seq::empty(), token: 0, staged: false, target, archive: Seq::empty() }
}

/// The directories with `root` as the destination root.
pub open spec fn world_of(root: Root) -> World {
    World { root, scratch: Map::empty() }
}

/// Whether the stage `b` can follow the stage `a` in a removal of
/// `target`.
pub open spec fn removal_follows(
    target: Seq<char>,
    a: RemovalStage,
    outcome: Outcome,
    b: RemovalStage,
) -> bool {
    &&& performs(
        removal_setting(target),
        Seq::empty(),
        a.pending,
        world_of(a.root),
        outcome,
        world_of(b.root),
    )
    &&& (b.phase, b.pending) == removal_transition(a.phase, outcome)
}

/// Whether `stages` is a course that a removal of `target` started on
/// `root` can take.
pub open spec fn is_removal(target: Seq<char>, root: Root, stages: Seq<RemovalStage>) -> bool
    decreases stages.len(),
{
    if stages.len() == 0 {
        false
    } else if stages.len() == 1 {
        stages[0] == first_removal_stage(root)
    } else {
        let previous = stages[stages.len() - 2];
        let last = stages.last();
        &&& is_removal(target, root, stages.drop_last())
        &&& exists|outcome: Outcome| #[trigger] removal_follows(target, previous, outcome, last)
    }
}

/// What holds of every stage of a removal of `target` started on `start`.
pub open spec fn removal_invariant(target: Seq<char>, start: Root, stage: RemovalStage) -> bool {
    match stage.phase {
        RemovalPhase::Idle => false,
        RemovalPhase::Probing => stage.root == start && stage.pending is ProbeTarget,
        RemovalPhase::Removing => stage.root == start && holds(start, target) && stage.pending
            is RemoveTarget,
        RemovalPhase::Removed => holds(start, target) && stage.root == Some(
            entries_of(start).remove(target),
        ) && stage.pending is Finished,
        RemovalPhase::Failed(error) => stage.pending is Failed && if error
            == InstallError::NotFound {
            stage.root == start && !holds(start, target)
        } else {
            holds(start, target) && same_elsewhere(start, stage.root, target)
        },
    }
}

/// Every stage of a removal has what holds of every stage.
pub proof fn lemma_removal_course(target: Seq<char>, start: Root, stages: Seq<RemovalStage>)
    requires
        is_removal(target, start, stages),
    ensures
        removal_invariant(target, start, stages.last()),
    decreases stages.len(),
{
    if stages.len() > 1 {
        let earlier = stages.drop_last();
        lemma_removal_course(target, start, earlier);
        assert(earlier.last() == stages[stages.len() - 2]);
        let a = stages[stages.len() - 2];
        let last = stages.last();
        let outcome = choose|outcome: Outcome| #[trigger] removal_follows(target, a, outcome, last);
        assert(removal_follows(target, a, outcome, last));
        if a.phase is Failed {
            assert(entries_of(start).remove(target).remove(target) =~= entries_of(start).remove(
                target,
            ));
        }
    }
}

/// A removal succeeds only of what is there, and leaves the root without
/// the target and otherwise as it was. A removal of what is not there fails
/// with `NotFound` and changes nothing.
pub proof fn lemma_removal_ends(target: Seq<char>, start: Root, stages: Seq<RemovalStage>)
    requires
        is_removal(target, start, stages),
    ensures
        stages.last().phase is Removed ==> holds(start, target) && !holds(
            stages.last().root,
            target,
        ) && stages.last().root == Some(entries_of(start).remove(target)),
        stages.last().phase == RemovalPhase::Failed(InstallError::NotFound) ==> !holds(
            start,
            target,
        ) && stages.last().root == start,
        !holds(start, target) ==> !(stages.last().phase is Removed) && !(stages.last().phase
            is Removing) && (stages.last().phase matches RemovalPhase::Failed(error) ==> error
            == InstallError::NotFound),
{
    lemma_removal_course(target, start, stages);
}

/// What is there can be removed: the course on which the removal of it
/// succeeds ends with the target gone.
pub proof fn lemma_removal_can_succeed(target: Seq<char>, start: Root)
    requires
        holds(start, target),
    ensures
        exists|stages: Seq<RemovalStage>| #[trigger]
            is_removal(target, start, stages) && stages.last().phase is Removed,
{
    let first = seq![first_removal_stage(start)];
    let removing = RemovalStage {
        phase: RemovalPhase::Removing,
        pending: StepView::RemoveTarget,
        root: start,
    };
    let second = first.push(removing);
    assert(second.drop_last() =~= first);
    assert(is_removal(target, start, first));
    assert(second[second.len() - 2] == first.last());
    assert(removal_follows(target, first.last(), Outcome::Exists(true), removing));
    assert(is_removal(target, start, second));
    let removed = RemovalStage {
        phase: RemovalPhase::Removed,
        pending: StepView::Finished,
        root: Some(entries_of(start).remove(target)),
    };
    let third = second.push(removed);
    assert(third.drop_last() =~= second);
    assert(third[third.len() - 2] == second.last());
    assert(removal_follows(target, second.last(), Outcome::Done, removed));
    assert(is_removal(target, start, third) && third.last().phase is Removed);
}

/// Install, remove, remove again: the first removal leaves the root
/// without the target and with its other entries as they were before the
/// install, and the second, if it ends, fails with `NotFound`.
pub proof fn lemma_install_then_remove(
    setting: Setting,
    start: World,
    install: Seq<Stage>,
    removal: Seq<RemovalStage>,
    again: Seq<RemovalStage>,
)
    requires
        is_install(setting, start, install),
        install.last().phase == Phase::Installed,
        is_removal(setting.target, install.last().world.root, removal),
        removal.last().phase is Removed,
        is_removal(setting.target, removal.last().root, again),
    ensures
        !holds(removal.last().root, setting.target),
        removal.last().root == Some(entries_of(start.root).remove(setting.target)),
        !(again.last().phase is Removed),
        again.last().phase matches RemovalPhase::Failed(error) ==> error
            == InstallError::NotFound,
        again.last().root == removal.last().root,
{
    lemma_install_course(setting, start, install);
    lemma_removal_course(setting.target, install.last().world.root, removal);
    lemma_removal_course(setting.target, removal.last().root, again);
    let target = setting.target;
    let tree = install.last().world.root->Some_0[target];
    assert(entries_of(start.root).insert(target, tree).remove(target) =~= entries_of(
        start.root,
    ).remove(target));
}

} // verus!
