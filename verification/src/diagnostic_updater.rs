//! Diagnostic tasks, the composite task that merges several of them, and the
//! bookkeeping of the updater that runs and publishes them.
use vstd::prelude::*;

use crate::diagnostic_status_wrapper::{
    empty_status, merged_summary, with_summary, DiagnosticStatus, DiagnosticStatusWrapper,
    StatusView,
};
use crate::msg::{sec_part, nanosec_part, stamp_from_nanos, DiagnosticArray, Header};

verus! {

/// A task that fills a status when the diagnostics are updated.
pub trait DiagnosticTask: Sized {
    /// Whether a run of the task, as it is now, may turn the status `before`
    /// into `after` and leave the task as `next`. A task that states nothing
    /// of its runs keeps this default, which allows any outcome.
    open spec fn runs_to(&self, before: StatusView, after: StatusView, next: Self) -> bool {
        true
    }

    /// The name of the task.
    fn get_name(&self) -> String;

    /// Fills the status.
    fn run(&mut self, stat: &mut DiagnosticStatusWrapper)
        ensures
            old(self).runs_to(old(stat)@, final(stat)@, *final(self)),
    ;
}

/// The summaries (level and message) of a list of statuses.
pub open spec fn summaries_of(statuses: Seq<StatusView>) -> Seq<(u8, Seq<char>)> {
    statuses.map_values(|s: StatusView| (s.level, s.message))
}

/// The status a subtask of a composite starts from: the status that the
/// previous subtask left (or, for the first, the one passed in), with the
/// summary that was passed in.
pub open spec fn subtask_input(before: StatusView, afters: Seq<StatusView>, i: int) -> StatusView {
    let prev = if i == 0 {
        before
    } else {
        afters[i - 1]
    };
    with_summary(prev, before.level, before.message)
}

/// The status a composite leaves: the one that its last subtask left (or the
/// one passed in), with the merge of the summaries that the subtasks left.
pub open spec fn composite_output(before: StatusView, afters: Seq<StatusView>) -> StatusView {
    let last = if afters.len() == 0 {
        before
    } else {
        afters.last()
    };
    with_summary(
        last,
        combined_summary(summaries_of(afters)).0,
        combined_summary(summaries_of(afters)).1,
    )
}

/// The summary made by merging, in order, the summaries `outs` into an empty
/// one (level OK, empty message).
pub open spec fn combined_summary(outs: Seq<(u8, Seq<char>)>) -> (u8, Seq<char>)
    decreases outs.len(),
{
    if outs.len() == 0 {
        (0u8, Seq::empty())
    } else {
        let prev = combined_summary(outs.drop_last());
        merged_summary(prev.0, prev.1, outs.last().0, outs.last().1)
    }
}

/// Law: the level of a merge of summaries is the greatest of their levels,
/// and OK when there are none.
pub proof fn lemma_combined_level_is_greatest(outs: Seq<(u8, Seq<char>)>)
    ensures
        forall|i: int| 0 <= i < outs.len() ==> #[trigger] outs[i].0 <= combined_summary(outs).0,
        combined_summary(outs).0 == 0 || exists|i: int|
            0 <= i < outs.len() && #[trigger] outs[i].0 == combined_summary(outs).0,
    decreases outs.len(),
{
    if outs.len() > 0 {
        let prev = outs.drop_last();
        lemma_combined_level_is_greatest(prev);
        assert forall|i: int| 0 <= i < outs.len() implies #[trigger] outs[i].0 <= combined_summary(
            outs,
        ).0 by {
            if i < outs.len() - 1 {
                assert(outs[i] == prev[i]);
            }
        }
        let c = combined_summary(outs).0;
        if c != 0 {
            if c == outs.last().0 {
                assert(outs[outs.len() - 1].0 == c);
            } else {
                let j = choose|j: int| 0 <= j < prev.len() && #[trigger] prev[j].0 == c;
                assert(outs[j] == prev[j]);
            }
        }
    }
}

/// The values appended by a series of tasks, one after the other.
pub open spec fn concat_values(added: Seq<Seq<(Seq<char>, Seq<char>)>>) -> Seq<
    (Seq<char>, Seq<char>),
>
    decreases added.len(),
{
    if added.len() == 0 {
        Seq::empty()
    } else {
        concat_values(added.drop_last()) + added.last()
    }
}

/// After the first `m` subtasks, each of which only appended values, the
/// status holds the values passed in followed by theirs.
proof fn lemma_chain_prefix(
    before: StatusView,
    afters: Seq<StatusView>,
    added: Seq<Seq<(Seq<char>, Seq<char>)>>,
    m: int,
)
    requires
        afters.len() == added.len(),
        0 <= m <= afters.len(),
        forall|i: int|
            0 <= i < afters.len() ==> #[trigger] afters[i].values == subtask_input(
                before,
                afters,
                i,
            ).values + added[i],
    ensures
        (if m == 0 {
            before
        } else {
            afters[m - 1]
        }).values == before.values + concat_values(added.take(m)),
    decreases m,
{
    if m == 0 {
        assert(concat_values(added.take(0)) =~= Seq::<(Seq<char>, Seq<char>)>::empty());
        assert(before.values + Seq::<(Seq<char>, Seq<char>)>::empty() =~= before.values);
    } else {
        lemma_chain_prefix(before, afters, added, m - 1);
        assert(added.take(m).drop_last() =~= added.take(m - 1));
        assert(afters[m - 1].values == subtask_input(before, afters, m - 1).values + added[m
            - 1]);
        assert(before.values + concat_values(added.take(m)) =~= (before.values + concat_values(
            added.take(m - 1),
        )) + added[m - 1]);
    }
}

/// Law: when each subtask of a composite only appends values to the status
/// it is given, the composite leaves the values passed in followed by those
/// of each subtask in order, with the merge of the subtasks' summaries in
/// order.
pub proof fn lemma_composite_values_chain(
    before: StatusView,
    afters: Seq<StatusView>,
    added: Seq<Seq<(Seq<char>, Seq<char>)>>,
)
    requires
        afters.len() == added.len(),
        forall|i: int|
            0 <= i < afters.len() ==> #[trigger] afters[i].values == subtask_input(
                before,
                afters,
                i,
            ).values + added[i],
    ensures
        composite_output(before, afters).values == before.values + concat_values(added),
        composite_output(before, afters).level == combined_summary(summaries_of(afters)).0,
        composite_output(before, afters).message == combined_summary(summaries_of(afters)).1,
{
    lemma_chain_prefix(before, afters, added, afters.len() as int);
    assert(added.take(added.len() as int) =~= added);
}

/// A task made of several tasks, whose summaries are merged into one.
pub struct CompositeDiagnosticTask<T: DiagnosticTask> {
    name: String,
    tasks: Vec<T>,
}

impl<T: DiagnosticTask> CompositeDiagnosticTask<T> {
    /// The name of the composite task.
    pub closed spec fn name_view(&self) -> Seq<char> {
        self.name@
    }

    /// The tasks, in the order they run.
    pub closed spec fn tasks_view(&self) -> Seq<T> {
        self.tasks@
    }

    /// A composite task without subtasks.
    pub fn new(name: &str) -> (c: Self)
        ensures
            c.name_view() == name@,
            c.tasks_view() == Seq::<T>::empty(),
    {
        CompositeDiagnosticTask { name: name.to_owned(), tasks: Vec::new() }
    }

    /// Appends a subtask; it runs after those already added.
    pub fn add_task(&mut self, task: T)
        ensures
            final(self).name_view() == old(self).name_view(),
            final(self).tasks_view() == old(self).tasks_view().push(task),
    {
        self.tasks.push(task);
    }
}

impl<T: DiagnosticTask> CompositeDiagnosticTask<T> {
    /// Whether the subtasks, run in order from `before`, may have left the
    /// statuses `afters` and become `nexts`, each subtask starting from
    /// [`subtask_input`].
    pub open spec fn subtasks_run(
        &self,
        before: StatusView,
        afters: Seq<StatusView>,
        nexts: Seq<T>,
    ) -> bool {
        &&& afters.len() == self.tasks_view().len()
        &&& nexts.len() == self.tasks_view().len()
        &&& forall|i: int|
            0 <= i < afters.len() ==> #[trigger] self.tasks_view()[i].runs_to(
                subtask_input(before, afters, i),
                afters[i],
                nexts[i],
            )
    }
}

impl<T: DiagnosticTask> DiagnosticTask for CompositeDiagnosticTask<T> {
    /// A run of the composite runs each subtask in order, each on the status
    /// the previous one left, with the summary that was passed in, and leaves
    /// the merge of the summaries the subtasks left; the composite keeps its
    /// name and holds the subtasks as their runs left them.
    open spec fn runs_to(&self, before: StatusView, after: StatusView, next: Self) -> bool {
        exists|afters: Seq<StatusView>, nexts: Seq<T>|
            #![trigger self.subtasks_run(before, afters, nexts)]
            {
                &&& self.subtasks_run(before, afters, nexts)
                &&& after == composite_output(before, afters)
                &&& next.name_view() == self.name_view()
                &&& next.tasks_view() == nexts
            }
    }

    fn get_name(&self) -> (r: String)
        ensures
            r@ == self.name_view(),
    {
        self.name.clone()
    }

    /// Runs each subtask on the status, each starting from the summary that
    /// was passed in, and leaves in the status the merge of the summaries
    /// that the subtasks left.
    fn run(&mut self, stat: &mut DiagnosticStatusWrapper)
        ensures
            final(self).name_view() == old(self).name_view(),
            final(self).tasks_view().len() == old(self).tasks_view().len(),
    {
        let ghost before = stat@;
        let mut combined = DiagnosticStatusWrapper::default();
        let mut passed_in = DiagnosticStatusWrapper::default();
        passed_in.summary_from_status(stat);
        let ghost mut afters: Seq<StatusView> = Seq::empty();
        let n = self.tasks.len();
        for i in 0..n
            invariant
                n == self.tasks.len(),
                self.name@ == old(self).name@,
                n == old(self).tasks@.len(),
                passed_in@.level == before.level,
                passed_in@.message == before.message,
                afters.len() == i,
                stat@ == (if i == 0 {
                    before
                } else {
                    afters[i - 1]
                }),
                forall|k: int| i <= k < n ==> self.tasks@[k] == old(self).tasks@[k],
                forall|k: int|
                    0 <= k < i ==> #[trigger] old(self).tasks@[k].runs_to(
                        subtask_input(before, afters, k),
                        afters[k],
                        self.tasks@[k],
                    ),
                combined@.level == combined_summary(summaries_of(afters)).0,
                combined@.message == combined_summary(summaries_of(afters)).1,
        {
            stat.summary_from_status(&passed_in);
            assert(stat@ == subtask_input(before, afters, i as int));
            let ghost tasks_before = self.tasks@;
            self.tasks[i].run(stat);
            proof {
                let prev = afters;
                afters = afters.push(stat@);
                assert(summaries_of(afters).drop_last() =~= summaries_of(prev));
                assert forall|k: int|
                    0 <= k < i + 1 implies #[trigger] old(self).tasks@[k].runs_to(
                    subtask_input(before, afters, k),
                    afters[k],
                    self.tasks@[k],
                ) by {
                    assert(afters[k] == if k < i {
                        prev[k]
                    } else {
                        stat@
                    });
                    if k > 0 {
                        assert(afters[k - 1] == prev[k - 1]);
                    }
                    assert(subtask_input(before, afters, k) == subtask_input(before, prev, k));
                    if k < i {
                        assert(self.tasks@[k] == tasks_before[k]);
                    }
                }
            }
            combined.merge_summary_from_status(stat);
        }
        stat.summary_from_status(&combined);
        let ghost nexts = self.tasks@;
        assert(old(self).subtasks_run(before, afters, nexts)) by {
            assert forall|k: int| 0 <= k < afters.len() implies #[trigger] old(
                self,
            ).tasks_view()[k].runs_to(subtask_input(before, afters, k), afters[k], nexts[k]) by {
                assert(old(self).tasks@[k].runs_to(
                    subtask_input(before, afters, k),
                    afters[k],
                    self.tasks@[k],
                ));
            }
        }
        assert(stat@ == composite_output(before, afters));
    }
}

/// Law: in a run of a composite, every subtask starts from the status that
/// the previous subtask left (the one passed in, for the first) but with the
/// level and message that were passed in to the composite, whatever an
/// earlier subtask left; the composite leaves the name, hardware id and
/// values that its last subtask left, and as its level the greatest level
/// that a subtask left.
pub proof fn lemma_composite_run_inputs<T: DiagnosticTask>(
    c: CompositeDiagnosticTask<T>,
    before: StatusView,
    after: StatusView,
    next: CompositeDiagnosticTask<T>,
)
    requires
        c.runs_to(before, after, next),
    ensures
        exists|afters: Seq<StatusView>|
            {
                &&& #[trigger] afters.len() == c.tasks_view().len()
                &&& next.tasks_view().len() == afters.len()
                &&& forall|i: int|
                    #![trigger afters[i]]
                    0 <= i < afters.len() ==> c.tasks_view()[i].runs_to(
                        StatusView {
                            level: before.level,
                            message: before.message,
                            ..(if i == 0 {
                                before
                            } else {
                                afters[i - 1]
                            })
                        },
                        afters[i],
                        next.tasks_view()[i],
                    )
                &&& after.name == (if afters.len() == 0 {
                    before
                } else {
                    afters[afters.len() - 1]
                }).name
                &&& after.hardware_id == (if afters.len() == 0 {
                    before
                } else {
                    afters[afters.len() - 1]
                }).hardware_id
                &&& after.values == (if afters.len() == 0 {
                    before
                } else {
                    afters[afters.len() - 1]
                }).values
                &&& forall|i: int| 0 <= i < afters.len() ==> #[trigger] afters[i].level <= after.level
                &&& after.level == 0 || exists|i: int|
                    0 <= i < afters.len() && #[trigger] afters[i].level == after.level
            },
{
    let (afters, nexts) = choose|afters: Seq<StatusView>, nexts: Seq<T>|
        {
            &&& c.subtasks_run(before, afters, nexts)
            &&& after == composite_output(before, afters)
            &&& next.name_view() == c.name_view()
            &&& next.tasks_view() == nexts
        };
    let outs = summaries_of(afters);
    lemma_combined_level_is_greatest(outs);
    assert forall|i: int|
        #![trigger afters[i]]
        0 <= i < afters.len() implies c.tasks_view()[i].runs_to(
        StatusView {
            level: before.level,
            message: before.message,
            ..(if i == 0 {
                before
            } else {
                afters[i - 1]
            })
        },
        afters[i],
        next.tasks_view()[i],
    ) by {
        assert(c.tasks_view()[i].runs_to(subtask_input(before, afters, i), afters[i], nexts[i]));
    }
    assert forall|i: int| 0 <= i < afters.len() implies #[trigger] afters[i].level
        <= after.level by {
        assert(outs[i].0 == afters[i].level);
    }
    if after.level != 0 {
        let j = choose|j: int| 0 <= j < outs.len() && #[trigger] outs[j].0 == after.level;
        assert(afters[j].level == after.level);
    }
}

/// Law: an update warns that no hardware id is set only when every status
/// it produced is OK, no id is set and the warning was not given before; a
/// single status that is not OK rules the warning out (and so leaves the
/// once-only flag as it was).
pub proof fn lemma_warning_only_when_all_ok(v: UpdaterView, statuses: Seq<DiagnosticStatusWrapper>)
    ensures
        levels_of(statuses).len() == statuses.len(),
        forall|j: int|
            0 <= j < statuses.len() ==> #[trigger] levels_of(statuses)[j] == statuses[j]@.level,
        (exists|j: int| 0 <= j < statuses.len() && #[trigger] statuses[j]@.level != 0) ==> !v.update_warns(
            levels_of(statuses),
        ),
        v.hardware_id is Some ==> !v.update_warns(levels_of(statuses)),
        v.warn_nohwid_done ==> !v.update_warns(levels_of(statuses)),
        (v.hardware_id is None && !v.warn_nohwid_done && forall|j: int|
            0 <= j < statuses.len() ==> #[trigger] statuses[j]@.level == 0) ==> v.update_warns(
            levels_of(statuses),
        ),
{
    if exists|j: int| 0 <= j < statuses.len() && #[trigger] statuses[j]@.level != 0 {
        let j = choose|j: int| 0 <= j < statuses.len() && #[trigger] statuses[j]@.level != 0;
        assert(levels_of(statuses)[j] != 0);
    }
}

/// Law: publishing changes only the name of a status, to the node's name,
/// ": " and the status's own name; its level, message, hardware id and
/// key-value pairs are those of the status given.
pub proof fn lemma_publication_renames_only(node_name: Seq<char>, s: StatusView)
    ensures
        published_status(node_name, s).name == node_name + seq![':', ' '] + s.name,
        published_status(node_name, s).level == s.level,
        published_status(node_name, s).message == s.message,
        published_status(node_name, s).hardware_id == s.hardware_id,
        published_status(node_name, s).values == s.values,
{
}

/// What the updater keeps between updates.
pub struct UpdaterView {
    pub node_name: Seq<char>,
    pub task_names: Seq<Seq<char>>,
    pub hardware_id: Option<Seq<char>>,
    pub warn_nohwid_done: bool,
}

/// The core of an updater: the name of its node, its tasks with their names
/// in the order they run, the hardware id, and whether the warning on a
/// missing hardware id was given.
pub struct UpdaterCore<T: DiagnosticTask> {
    node_name: String,
    task_names: Vec<String>,
    tasks: Vec<T>,
    hardware_id: Option<String>,
    warn_nohwid_done: bool,
}

impl UpdaterView {
    /// Whether an update whose statuses have the given levels warns that no
    /// hardware id is set: none is set, every level is OK, and the warning
    /// was not given before.
    pub open spec fn update_warns(self, levels: Seq<u8>) -> bool {
        &&& self.hardware_id is None
        &&& !self.warn_nohwid_done
        &&& forall|j: int| 0 <= j < levels.len() ==> levels[j] == 0
    }
}

/// The levels of a list of statuses.
pub open spec fn levels_of(statuses: Seq<DiagnosticStatusWrapper>) -> Seq<u8> {
    statuses.map_values(|w: DiagnosticStatusWrapper| w@.level)
}

/// Law: once the warning on a missing hardware id was given, no update
/// gives it again.
pub proof fn lemma_warns_at_most_once(v: UpdaterView, levels: Seq<u8>)
    requires
        v.warn_nohwid_done,
    ensures
        !v.update_warns(levels),
{
}

/// Law: a task just added can be removed by its name.
pub proof fn lemma_added_task_is_removable(names: Seq<Seq<char>>, name: Seq<char>)
    ensures
        names.push(name).contains(name),
{
    assert(names.push(name)[names.len() as int] == name);
}

/// Law: a task added under `name` is announced, once published, as "node:
/// name" with level OK, "Node starting up" and nothing else, and at each
/// update it starts from a status named `name` with level ERROR, "No message
/// was set", no values, and the hardware id when one is set.
pub proof fn lemma_added_task_announced(v: UpdaterView, name: Seq<char>)
    ensures
        ({
            let p = published_status(v.node_name, named_status(name, 0, starting_up_text()));
            &&& p.name == v.node_name + seq![':', ' '] + name
            &&& p.level == 0
            &&& p.message == "Node starting up"@
            &&& p.hardware_id.len() == 0
            &&& p.values.len() == 0
        }),
        ({
            let w = UpdaterView { task_names: v.task_names.push(name), ..v };
            let i = initial_view(w, v.task_names.len() as int);
            &&& i.name == name
            &&& i.level == 2
            &&& i.message == "No message was set"@
            &&& i.values.len() == 0
            &&& i.hardware_id == match v.hardware_id {
                Some(h) => h,
                None => Seq::<char>::empty(),
            }
        }),
{
}

/// Law: a broadcast, once published, gives each task a status named "node:
/// task" with the level and the message broadcast, and nothing else.
pub proof fn lemma_broadcast_published(v: UpdaterView, level: u8, message: Seq<char>, i: int)
    requires
        0 <= i < v.task_names.len(),
    ensures
        ({
            let p = published_status(v.node_name, named_status(v.task_names[i], level, message));
            &&& p.name == v.node_name + seq![':', ' '] + v.task_names[i]
            &&& p.level == level
            &&& p.message == message
            &&& p.hardware_id.len() == 0
            &&& p.values.len() == 0
        }),
{
}

/// Law: the position at which a name is found first is the only one: no
/// earlier task has the name, and no two positions both qualify.
pub proof fn lemma_first_index_unique(names: Seq<Seq<char>>, name: Seq<char>, i: int, k: int)
    requires
        first_index_of(names, name, i),
        first_index_of(names, name, k),
    ensures
        i == k,
        names[i] == name,
        forall|j: int| 0 <= j < i ==> names[j] != name,
{
}

/// Law: once a hardware id is set, the updates that follow keep it, whatever
/// tasks are added or removed and whatever the updates record: each task
/// starts from a status with that id, and no update warns that the id is
/// missing.
pub proof fn lemma_hardware_id_kept(
    v: UpdaterView,
    hwid: Seq<char>,
    names: Seq<Seq<char>>,
    done: bool,
    levels: Seq<u8>,
)
    requires
        v.hardware_id == Some(hwid),
    ensures
        (UpdaterView { task_names: names, warn_nohwid_done: done, ..v }).hardware_id == Some(
            hwid,
        ),
        forall|i: int|
            0 <= i < names.len() ==> (#[trigger] initial_view(
                UpdaterView { task_names: names, warn_nohwid_done: done, ..v },
                i,
            )).hardware_id == hwid,
        !(UpdaterView { task_names: names, warn_nohwid_done: done, ..v }).update_warns(levels),
{
}

/// The view of a list of strings.
pub open spec fn names_view(names: Seq<String>) -> Seq<Seq<char>> {
    names.map_values(|s: String| s@)
}

/// The message of a task's status before the task has run.
pub open spec fn no_message_text() -> Seq<char> {
    "No message was set"@
}

/// The message of the status published when a task is added.
pub open spec fn starting_up_text() -> Seq<char> {
    "Node starting up"@
}

/// Whether `names` holds `name` first at `i`.
pub open spec fn first_index_of(names: Seq<Seq<char>>, name: Seq<char>, i: int) -> bool {
    &&& 0 <= i < names.len()
    &&& names[i] == name
    &&& forall|j: int| 0 <= j < i ==> names[j] != name
}

/// A status with the given name, level and message, and nothing else.
pub open spec fn named_status(name: Seq<char>, level: u8, message: Seq<char>) -> StatusView {
    StatusView { name: name, level: level, message: message, ..empty_status() }
}

/// The status the task at `i` starts from at an update: its name, level
/// ERROR, "No message was set", and the hardware id when one is set.
pub open spec fn initial_view(v: UpdaterView, i: int) -> StatusView {
    StatusView {
        hardware_id: match v.hardware_id {
            Some(h) => h,
            None => Seq::empty(),
        },
        ..named_status(v.task_names[i], 2, no_message_text())
    }
}

/// The name under which a status is published: the node's name, ": ", and
/// the status's own name.
pub open spec fn published_name(node_name: Seq<char>, name: Seq<char>) -> Seq<char> {
    node_name + seq![':', ' '] + name
}

/// A status as it is published: renamed with the node's name in front.
pub open spec fn published_status(node_name: Seq<char>, s: StatusView) -> StatusView {
    StatusView { name: published_name(node_name, s.name), ..s }
}

impl<T: DiagnosticTask> View for UpdaterCore<T> {
    type V = UpdaterView;

    closed spec fn view(&self) -> UpdaterView {
        UpdaterView {
            node_name: self.node_name@,
            task_names: names_view(self.task_names@),
            hardware_id: match self.hardware_id {
                Some(h) => Some(h@),
                None => None,
            },
            warn_nohwid_done: self.warn_nohwid_done,
        }
    }
}

impl<T: DiagnosticTask> UpdaterCore<T> {
    /// The tasks, in the order they run.
    pub closed spec fn tasks_view(&self) -> Seq<T> {
        self.tasks@
    }

    /// Each task has its name.
    pub closed spec fn well_formed(&self) -> bool {
        self.task_names@.len() == self.tasks@.len()
    }

    /// An updater for the node of the given name, without tasks or hardware
    /// id.
    pub fn new(node_name: &str) -> (u: Self)
        ensures
            u.well_formed(),
            u.tasks_view() == Seq::<T>::empty(),
            u@ == (UpdaterView {
                node_name: node_name@,
                task_names: Seq::empty(),
                hardware_id: None,
                warn_nohwid_done: false,
            }),
    {
        let u = UpdaterCore {
            node_name: node_name.to_owned(),
            task_names: Vec::new(),
            tasks: Vec::new(),
            hardware_id: None,
            warn_nohwid_done: false,
        };
        assert(names_view(u.task_names@) =~= Seq::empty());
        u
    }

    /// The number of tasks.
    pub fn task_count(&self) -> (n: usize)
        requires
            self.well_formed(),
        ensures
            n == self@.task_names.len(),
            n == self.tasks_view().len(),
    {
        self.task_names.len()
    }

    /// Sets the hardware id that the statuses carry.
    pub fn set_hardware_id(&mut self, hwid: &str)
        requires
            old(self).well_formed(),
        ensures
            final(self).well_formed(),
            final(self).tasks_view() == old(self).tasks_view(),
            final(self)@ == (UpdaterView { hardware_id: Some(hwid@), ..old(self)@ }),
    {
        self.hardware_id = Some(hwid.to_owned());
    }

    /// Registers a task under `name`, after the others, and returns the
    /// status to publish for it: level OK and "Node starting up".
    pub fn add(&mut self, name: &str, task: T) -> (startup: DiagnosticStatusWrapper)
        requires
            old(self).well_formed(),
        ensures
            final(self).well_formed(),
            final(self).tasks_view() == old(self).tasks_view().push(task),
            final(self)@ == (UpdaterView {
                task_names: old(self)@.task_names.push(name@),
                ..old(self)@
            }),
            startup@ == named_status(name@, 0, starting_up_text()),
    {
        self.task_names.push(name.to_owned());
        self.tasks.push(task);
        assert(names_view(self.task_names@) =~= names_view(old(self).task_names@).push(name@));
        let mut status = DiagnosticStatusWrapper::default();
        status.status.name = name.to_owned();
        proof { reveal_strlit("Node starting up"); }
        status.summary(0, "Node starting up");
        status
    }

    /// Removes the first task named `name`; returns whether there was one.
    pub fn remove_by_name(&mut self, name: &str) -> (removed: bool)
        requires
            old(self).well_formed(),
        ensures
            final(self).well_formed(),
            removed == old(self)@.task_names.contains(name@),
            !removed ==> final(self)@ == old(self)@ && final(self).tasks_view() == old(
                self,
            ).tasks_view(),
            removed ==> exists|i: int|
                #![trigger old(self)@.task_names.remove(i)]
                first_index_of(old(self)@.task_names, name@, i) && final(self)@ == (UpdaterView {
                    task_names: old(self)@.task_names.remove(i),
                    ..old(self)@
                }) && final(self).tasks_view() == old(self).tasks_view().remove(i),
    {
        let key = name.to_owned();
        let n = self.task_names.len();
        let mut i: usize = 0;
        while i < n
            invariant
                n == self.task_names.len(),
                self.well_formed(),
                self@ == old(self)@,
                self.tasks_view() == old(self).tasks_view(),
                key@ == name@,
                i <= n,
                forall|j: int| 0 <= j < i ==> self@.task_names[j] != name@,
            decreases n - i,
        {
            if self.task_names[i] == key {
                let ghost before = self.task_names@;
                assert(names_view(before)[i as int] == name@);
                self.task_names.remove(i);
                self.tasks.remove(i);
                assert(names_view(self.task_names@) =~= names_view(before).remove(i as int));
                assert(first_index_of(old(self)@.task_names, name@, i as int));
                return true;
            }
            i += 1;
        }
        assert(!self@.task_names.contains(name@));
        false
    }

    /// The status a task starts from at an update: its name, level ERROR,
    /// "No message was set", and the hardware id when one is set.
    pub fn initial_status(&self, i: usize) -> (w: DiagnosticStatusWrapper)
        requires
            i < self@.task_names.len(),
        ensures
            w@ == initial_view(self@, i as int),
    {
        let mut w = DiagnosticStatusWrapper::default();
        w.status.name = self.task_names[i].clone();
        w.status.level = 2;
        proof { reveal_strlit("No message was set"); }
        w.status.message = "No message was set".to_owned();
        match &self.hardware_id {
            Some(h) => {
                w.status.hardware_id = h.clone();
            },
            None => {},
        }
        w
    }

    /// Records the statuses that an update produced and tells whether to
    /// warn that no hardware id is set: only when none is set, every status
    /// is OK, and the warning was not given before.
    fn complete_update(&mut self, statuses: &Vec<DiagnosticStatusWrapper>) -> (warn: bool)
        requires
            old(self).well_formed(),
        ensures
            final(self).well_formed(),
            final(self).tasks_view() == old(self).tasks_view(),
            warn == old(self)@.update_warns(levels_of(statuses@)),
            final(self)@ == (UpdaterView {
                warn_nohwid_done: old(self)@.warn_nohwid_done || warn,
                ..old(self)@
            }),
    {
        let mut all_ok = true;
        let n = statuses.len();
        for j in 0..n
            invariant
                n == statuses@.len(),
                all_ok == forall|k: int| 0 <= k < j ==> #[trigger] statuses@[k]@.level == 0,
        {
            if statuses[j].status.level != 0 {
                all_ok = false;
            }
            assert(statuses@[j as int]@.level == statuses[j as int].status.level);
        }
        let warn = self.hardware_id.is_none() && all_ok && !self.warn_nohwid_done;
        assert(warn == old(self)@.update_warns(levels_of(statuses@))) by {
            if all_ok {
                assert forall|j: int| 0 <= j < levels_of(statuses@).len() implies levels_of(
                    statuses@,
                )[j] == 0 by {
                    assert(statuses@[j]@.level == 0);
                }
            } else {
                let k = choose|k: int| 0 <= k < n && #[trigger] statuses@[k]@.level != 0;
                assert(levels_of(statuses@)[k] != 0);
            }
        }
        if warn {
            self.warn_nohwid_done = true;
        }
        warn
    }

    /// Runs every task, each on the status it starts from (see
    /// [`UpdaterCore::initial_status`]), and returns the statuses in the
    /// order of the tasks, with whether to warn that no hardware id is set:
    /// only when none is set, every status is OK, and the warning was not
    /// given before.
    pub fn update(&mut self) -> (out: (Vec<DiagnosticStatusWrapper>, bool))
        requires
            old(self).well_formed(),
        ensures
            final(self).well_formed(),
            final(self).tasks_view().len() == old(self).tasks_view().len(),
            out.0@.len() == old(self)@.task_names.len(),
            forall|i: int|
                0 <= i < out.0@.len() ==> #[trigger] old(self).tasks_view()[i].runs_to(
                    initial_view(old(self)@, i),
                    out.0@[i]@,
                    final(self).tasks_view()[i],
                ),
            out.1 == old(self)@.update_warns(levels_of(out.0@)),
            final(self)@ == (UpdaterView {
                warn_nohwid_done: old(self)@.warn_nohwid_done || out.1,
                ..old(self)@
            }),
    {
        let mut statuses: Vec<DiagnosticStatusWrapper> = Vec::new();
        let n = self.tasks.len();
        for i in 0..n
            invariant
                n == self.tasks@.len(),
                self.well_formed(),
                self@ == old(self)@,
                self.tasks_view().len() == old(self).tasks_view().len(),
                statuses@.len() == i,
                forall|k: int| i <= k < n ==> self.tasks@[k] == old(self).tasks@[k],
                forall|k: int|
                    0 <= k < i ==> #[trigger] old(self).tasks@[k].runs_to(
                        initial_view(old(self)@, k),
                        statuses@[k]@,
                        self.tasks@[k],
                    ),
        {
            let mut w = self.initial_status(i);
            let ghost tasks_before = self.tasks@;
            self.tasks[i].run(&mut w);
            statuses.push(w);
            proof {
                assert forall|k: int| 0 <= k < i + 1 implies #[trigger] old(self).tasks@[k].runs_to(
                    initial_view(old(self)@, k),
                    statuses@[k]@,
                    self.tasks@[k],
                ) by {
                    if k < i {
                        assert(self.tasks@[k] == tasks_before[k]);
                    }
                }
            }
        }
        let warn = self.complete_update(&statuses);
        (statuses, warn)
    }

    /// The statuses that broadcast a level and a message on every task.
    pub fn broadcast(&self, level: u8, message: &str) -> (out: Vec<DiagnosticStatusWrapper>)
        ensures
            out@.len() == self@.task_names.len(),
            forall|j: int|
                0 <= j < out@.len() ==> #[trigger] out@[j]@ == named_status(
                    self@.task_names[j],
                    level,
                    message@,
                ),
    {
        let mut out: Vec<DiagnosticStatusWrapper> = Vec::new();
        let n = self.task_names.len();
        for j in 0..n
            invariant
                n == self@.task_names.len(),
                out@.len() == j,
                forall|k: int|
                    0 <= k < j ==> #[trigger] out@[k]@ == named_status(
                        self@.task_names[k],
                        level,
                        message@,
                    ),
        {
            let mut w = DiagnosticStatusWrapper::default();
            w.status.name = self.task_names[j].clone();
            w.summary(level, message);
            out.push(w);
        }
        out
    }

    /// The message that publishes `statuses` at time `now_ns`: each status
    /// renamed with the node's name in front, and a header stamped with the
    /// time split into seconds and nanoseconds, with an empty frame.
    pub fn publication(&self, statuses: &Vec<DiagnosticStatusWrapper>, now_ns: i64) -> (msg:
        DiagnosticArray)
        ensures
            msg@.0.sec == sec_part(now_ns as int) as i32,
            msg@.0.nanosec == nanosec_part(now_ns as int) as u32,
            msg@.1 == Seq::<char>::empty(),
            msg@.2.len() == statuses@.len(),
            forall|j: int|
                0 <= j < statuses@.len() ==> #[trigger] msg@.2[j] == published_status(
                    self@.node_name,
                    statuses@[j]@,
                ),
    {
        let mut out: Vec<DiagnosticStatus> = Vec::new();
        let n = statuses.len();
        for j in 0..n
            invariant
                n == statuses@.len(),
                out@.len() == j,
                forall|k: int|
                    0 <= k < j ==> #[trigger] out@[k]@ == published_status(
                        self@.node_name,
                        statuses@[k]@,
                    ),
        {
            let mut s = statuses[j].status.clone();
            let mut name = self.node_name.clone();
            proof {
                reveal_strlit(": ");
                assert(": "@ =~= seq![':', ' ']);
            }
            name.append(": ");
            name.append(statuses[j].status.name.as_str());
            s.name = name;
            out.push(s);
        }
        let msg = DiagnosticArray {
            header: Header { stamp: stamp_from_nanos(now_ns), frame_id: String::new() },
            status: out,
        };
        assert(msg@.2 =~= out@.map_values(|s: DiagnosticStatus| s@));
        msg
    }
}

} // verus!
