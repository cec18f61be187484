//! The watch-event processor: what the supervisor does with each notification
//! of the pod watch.

use crate::arg::texts;
use crate::ctime::CTime;
use crate::pod::{PodIdentity, PodModel};
use crate::selector::{eligible, is_supervised_pod};
use crate::state::{
    color_set, lemma_register_keeps, register, State, StreamTask, TaskModel, PALETTE_SIZE,
};
use vstd::prelude::*;

verus! {

/// A notification of the pod watch.
#[derive(Debug)]
pub enum Event {
    /// A pod was added or changed.
    Applied(PodIdentity),
    /// A pod was deleted.
    Deleted(PodIdentity),
    /// The watch started over: these are all the pods there are.
    Restarted(Vec<PodIdentity>),
}

/// What the caller is to do after a notification.
#[derive(Debug)]
pub enum Action {
    /// Start tailing the log of a pod that has come under supervision.
    Start(StreamTask),
    /// Tell that a pod that was eligible for supervision was deleted.
    ReportDeleted(String),
}

/// A notification as contracts speak of it.
pub enum EventModel {
    Applied(PodModel),
    Deleted(PodModel),
    Restarted(Seq<PodModel>),
}

/// An action as contracts speak of it.
pub enum ActionModel {
    Start(TaskModel),
    ReportDeleted(Seq<char>),
}

impl View for Event {
    type V = EventModel;

    open spec fn view(&self) -> EventModel {
        match self {
            Event::Applied(pod) => EventModel::Applied(pod@),
            Event::Deleted(pod) => EventModel::Deleted(pod@),
            Event::Restarted(pods) => EventModel::Restarted(pod_models(pods@)),
        }
    }
}

impl View for Action {
    type V = ActionModel;

    open spec fn view(&self) -> ActionModel {
        match self {
            Action::Start(task) => ActionModel::Start(task@),
            Action::ReportDeleted(name) => ActionModel::ReportDeleted(name@),
        }
    }
}

/// The pods of a list, as contracts speak of them.
pub open spec fn pod_models(pods: Seq<PodIdentity>) -> Seq<PodModel> {
    Seq::new(pods.len(), |i: int| pods[i]@)
}

/// The actions of a list, as contracts speak of them.
pub open spec fn action_models(actions: Seq<Action>) -> Seq<ActionModel> {
    Seq::new(actions.len(), |i: int| actions[i]@)
}

/// The registry and the actions that a notification leads to.
pub struct Outcome {
    pub pods: Map<Seq<char>, usize>,
    pub actions: Seq<ActionModel>,
}

/// What one applied pod leads to. An eligible pod that is not supervised yet
/// is registered, and the task to tail it is the one action. Any other pod
/// changes nothing.
pub open spec fn apply_one(
    pods: Map<Seq<char>, usize>,
    pod: PodModel,
    patterns: Seq<Seq<char>>,
    ctime: Option<CTime>,
) -> Outcome {
    if eligible(pod.name, pod.created_at, patterns, ctime) && !pods.contains_key(pod.name) {
        Outcome {
            pods: register(pods, pod.name),
            actions: seq![
                ActionModel::Start(
                    TaskModel { pod, color: color_set((pods.len() % PALETTE_SIZE as nat) as int) },
                ),
            ],
        }
    } else {
        Outcome { pods, actions: Seq::empty() }
    }
}

/// What a list of applied pods leads to, one after the other.
pub open spec fn apply_each(
    pods: Map<Seq<char>, usize>,
    list: Seq<PodModel>,
    patterns: Seq<Seq<char>>,
    ctime: Option<CTime>,
) -> Outcome
    decreases list.len(),
{
    if list.len() == 0 {
        Outcome { pods, actions: Seq::empty() }
    } else {
        let before = apply_each(pods, list.drop_last(), patterns, ctime);
        let last = apply_one(before.pods, list.last(), patterns, ctime);
        Outcome { pods: last.pods, actions: before.actions + last.actions }
    }
}

/// What a notification leads to.
///
/// An applied pod is taken under supervision where it is eligible and new.
/// A deleted pod stays in the registry; where it is eligible, its deletion is
/// reported. A restart applies each of its pods in order.
pub open spec fn react(
    pods: Map<Seq<char>, usize>,
    event: EventModel,
    patterns: Seq<Seq<char>>,
    ctime: Option<CTime>,
) -> Outcome {
    match event {
        EventModel::Applied(pod) => apply_one(pods, pod, patterns, ctime),
        EventModel::Deleted(pod) => Outcome {
            pods,
            actions: if eligible(pod.name, pod.created_at, patterns, ctime) {
                seq![ActionModel::ReportDeleted(pod.name)]
            } else {
                Seq::empty()
            },
        },
        EventModel::Restarted(list) => apply_each(pods, list, patterns, ctime),
    }
}

/// What a list of applied pods leads to: the registry stays finite, keeps
/// every pod it had with the index it had, and holds every eligible pod of
/// the list; each action starts a task, and there is one action for each
/// entry that the registry has gained.
pub proof fn lemma_apply_each_grows(
    pods: Map<Seq<char>, usize>,
    list: Seq<PodModel>,
    patterns: Seq<Seq<char>>,
    ctime: Option<CTime>,
)
    requires
        pods.dom().finite(),
    ensures
        apply_each(pods, list, patterns, ctime).pods.dom().finite(),
        forall|name: Seq<char>| #[trigger]
            pods.contains_key(name) ==> apply_each(pods, list, patterns, ctime).pods.contains_key(
                name,
            ) && apply_each(pods, list, patterns, ctime).pods[name] == pods[name],
        forall|i: int|
            0 <= i < list.len() && eligible(
                (#[trigger] list[i]).name,
                list[i].created_at,
                patterns,
                ctime,
            ) ==> apply_each(pods, list, patterns, ctime).pods.contains_key(list[i].name),
        forall|i: int|
            0 <= i < apply_each(pods, list, patterns, ctime).actions.len() ==> (#[trigger] apply_each(
                pods,
                list,
                patterns,
                ctime,
            ).actions[i]) is Start,
        apply_each(pods, list, patterns, ctime).pods.len() == pods.len() + apply_each(
            pods,
            list,
            patterns,
            ctime,
        ).actions.len(),
    decreases list.len(),
{
    if list.len() > 0 {
        let front = list.drop_last();
        let before = apply_each(pods, front, patterns, ctime);
        lemma_apply_each_grows(pods, front, patterns, ctime);
        lemma_register_keeps(before.pods, list.last().name);
        let after = apply_each(pods, list, patterns, ctime);
        assert forall|i: int|
            0 <= i < list.len() && eligible(
                (#[trigger] list[i]).name,
                list[i].created_at,
                patterns,
                ctime,
            ) implies after.pods.contains_key(list[i].name) by {
            if i < list.len() - 1 {
                assert(front[i] == list[i]);
            }
        }
    }
}

/// A list of pods of which every eligible one is supervised already changes
/// nothing and asks for nothing.
pub proof fn lemma_apply_each_known(
    pods: Map<Seq<char>, usize>,
    list: Seq<PodModel>,
    patterns: Seq<Seq<char>>,
    ctime: Option<CTime>,
)
    requires
        forall|i: int|
            0 <= i < list.len() && eligible(
                (#[trigger] list[i]).name,
                list[i].created_at,
                patterns,
                ctime,
            ) ==> pods.contains_key(list[i].name),
    ensures
        apply_each(pods, list, patterns, ctime) == (Outcome { pods, actions: Seq::empty() }),
    decreases list.len(),
{
    if list.len() > 0 {
        let front = list.drop_last();
        assert forall|i: int|
            0 <= i < front.len() && eligible(
                (#[trigger] front[i]).name,
                front[i].created_at,
                patterns,
                ctime,
            ) implies pods.contains_key(front[i].name) by {
            assert(front[i] == list[i]);
        }
        lemma_apply_each_known(pods, front, patterns, ctime);
        assert(list[list.len() - 1] == list.last());
        assert(Seq::<ActionModel>::empty() + Seq::<ActionModel>::empty() =~= Seq::<
            ActionModel,
        >::empty());
    }
}

/// Applying the same pod twice is applying it once: the second notification
/// leaves the registry as the first left it and asks for no task, and the
/// first asks for one task at most.
pub proof fn law_applied_twice(
    pods: Map<Seq<char>, usize>,
    pod: PodModel,
    patterns: Seq<Seq<char>>,
    ctime: Option<CTime>,
)
    requires
        pods.dom().finite(),
    ensures
        react(pods, EventModel::Applied(pod), patterns, ctime).actions.len() <= 1,
        react(
            react(pods, EventModel::Applied(pod), patterns, ctime).pods,
            EventModel::Applied(pod),
            patterns,
            ctime,
        ) == (Outcome {
            pods: react(pods, EventModel::Applied(pod), patterns, ctime).pods,
            actions: Seq::empty(),
        }),
{
}

/// A restart that is repeated changes nothing the second time and asks for no
/// task then; the same holds of a pod that is applied after a restart that
/// listed it.
pub proof fn law_restarted_twice(
    pods: Map<Seq<char>, usize>,
    list: Seq<PodModel>,
    patterns: Seq<Seq<char>>,
    ctime: Option<CTime>,
)
    requires
        pods.dom().finite(),
    ensures
        react(
            react(pods, EventModel::Restarted(list), patterns, ctime).pods,
            EventModel::Restarted(list),
            patterns,
            ctime,
        ) == (Outcome {
            pods: react(pods, EventModel::Restarted(list), patterns, ctime).pods,
            actions: Seq::empty(),
        }),
        forall|i: int|
            0 <= i < list.len() ==> react(
                react(pods, EventModel::Restarted(list), patterns, ctime).pods,
                EventModel::Applied(#[trigger] list[i]),
                patterns,
                ctime,
            ) == (Outcome {
                pods: react(pods, EventModel::Restarted(list), patterns, ctime).pods,
                actions: Seq::empty(),
            }),
{
    lemma_apply_each_grows(pods, list, patterns, ctime);
    lemma_apply_each_known(apply_each(pods, list, patterns, ctime).pods, list, patterns, ctime);
}

/// Supervision is never taken back: whatever the notification, a deletion
/// too, every pod of the registry stays in it with the index that it had.
/// Each entry that the registry gains comes with the one task that tails it,
/// and a deletion asks for no task.
pub proof fn law_registry_only_grows(
    pods: Map<Seq<char>, usize>,
    event: EventModel,
    patterns: Seq<Seq<char>>,
    ctime: Option<CTime>,
)
    requires
        pods.dom().finite(),
    ensures
        react(pods, event, patterns, ctime).pods.dom().finite(),
        forall|name: Seq<char>| #[trigger]
            pods.contains_key(name) ==> react(pods, event, patterns, ctime).pods.contains_key(name)
                && react(pods, event, patterns, ctime).pods[name] == pods[name],
        event is Deleted ==> react(pods, event, patterns, ctime).pods == pods,
        !(event is Deleted) ==> react(pods, event, patterns, ctime).pods.len() == pods.len()
            + react(pods, event, patterns, ctime).actions.len(),
        forall|i: int|
            0 <= i < react(pods, event, patterns, ctime).actions.len() ==> ((#[trigger] react(
                pods,
                event,
                patterns,
                ctime,
            ).actions[i]) is Start <==> !(event is Deleted)),
{
    match event {
        EventModel::Applied(pod) => {
            lemma_register_keeps(pods, pod.name);
        },
        EventModel::Deleted(pod) => {},
        EventModel::Restarted(list) => {
            lemma_apply_each_grows(pods, list, patterns, ctime);
        },
    }
}

/// The registry after a run of notifications, taken in order.
pub open spec fn run(
    pods: Map<Seq<char>, usize>,
    events: Seq<EventModel>,
    patterns: Seq<Seq<char>>,
    ctime: Option<CTime>,
) -> Map<Seq<char>, usize>
    decreases events.len(),
{
    if events.len() == 0 {
        pods
    } else {
        react(run(pods, events.drop_last(), patterns, ctime), events.last(), patterns, ctime).pods
    }
}

/// A pod that is supervised stays supervised, in its colour, whatever
/// notifications follow; and applying it again, after whatever became of its
/// log stream, asks for no second task.
pub proof fn law_supervision_is_permanent(
    pods: Map<Seq<char>, usize>,
    events: Seq<EventModel>,
    pod: PodModel,
    patterns: Seq<Seq<char>>,
    ctime: Option<CTime>,
)
    requires
        pods.dom().finite(),
        pods.contains_key(pod.name),
    ensures
        run(pods, events, patterns, ctime).dom().finite(),
        run(pods, events, patterns, ctime).contains_key(pod.name),
        run(pods, events, patterns, ctime)[pod.name] == pods[pod.name],
        react(run(pods, events, patterns, ctime), EventModel::Applied(pod), patterns, ctime) == (
        Outcome { pods: run(pods, events, patterns, ctime), actions: Seq::empty() }),
    decreases events.len(),
{
    if events.len() > 0 {
        law_supervision_is_permanent(pods, events.drop_last(), pod, patterns, ctime);
        law_registry_only_grows(
            run(pods, events.drop_last(), patterns, ctime),
            events.last(),
            patterns,
            ctime,
        );
    }
}

/// Applies one pod: registers it where it is eligible and new, and adds the
/// task to tail it to `actions`.
fn apply_pod(
    state: &mut State,
    pod: PodIdentity,
    pod_selector: &[String],
    ctime: Option<&CTime>,
    actions: &mut Vec<Action>,
)
    requires
        old(state).wf(),
    ensures
        final(state).wf(),
        final(state).pods() == apply_one(
            old(state).pods(),
            pod@,
            texts(pod_selector@),
            match ctime {
                Some(p) => Some(*p),
                None => None,
            },
        ).pods,
        action_models(final(actions)@) == action_models(old(actions)@) + apply_one(
            old(state).pods(),
            pod@,
            texts(pod_selector@),
            match ctime {
                Some(p) => Some(*p),
                None => None,
            },
        ).actions,
{
    if is_supervised_pod(&pod, pod_selector, ctime) {
        match state.add_pod(pod) {
            Some(task) => {
                actions.push(Action::Start(task));
                assert(action_models(actions@) =~= action_models(old(actions)@) + seq![
                    ActionModel::Start(task@),
                ]);
            },
            None => {
                assert(action_models(actions@) =~= action_models(old(actions)@)
                    + Seq::<ActionModel>::empty());
            },
        }
    } else {
        assert(action_models(actions@) =~= action_models(old(actions)@)
            + Seq::<ActionModel>::empty());
    }
}

/// Takes one notification of the pod watch: updates the supervisor's state
/// and returns, in order, what the caller is to do.
pub fn update_pods_names(
    state: &mut State,
    pod_selector: &[String],
    ctime: Option<&CTime>,
    event: Event,
) -> (actions: Vec<Action>)
    requires
        old(state).wf(),
    ensures
        final(state).wf(),
        final(state).pods() == react(
            old(state).pods(),
            event@,
            texts(pod_selector@),
            match ctime {
                Some(p) => Some(*p),
                None => None,
            },
        ).pods,
        action_models(actions@) == react(
            old(state).pods(),
            event@,
            texts(pod_selector@),
            match ctime {
                Some(p) => Some(*p),
                None => None,
            },
        ).actions,
{
    let ghost patterns = texts(pod_selector@);
    let ghost predicate = match ctime {
        Some(p) => Some(*p),
        None => None,
    };
    let mut actions: Vec<Action> = Vec::new();
    assert(action_models(actions@) =~= Seq::<ActionModel>::empty());
    match event {
        Event::Applied(pod) => {
            apply_pod(state, pod, pod_selector, ctime, &mut actions);
            assert(action_models(actions@) =~= apply_one(
                old(state).pods(),
                pod@,
                patterns,
                predicate,
            ).actions);
        },
        Event::Deleted(pod) => {
            if is_supervised_pod(&pod, pod_selector, ctime) {
                actions.push(Action::ReportDeleted(pod.name));
                assert(action_models(actions@) =~= seq![ActionModel::ReportDeleted(pod.name@)]);
            }
        },
        Event::Restarted(pods) => {
            let ghost list = pod_models(pods@);
            let mut i: usize = 0;
            while i < pods.len()
                invariant
                    i <= pods.len(),
                    state.wf(),
                    list == pod_models(pods@),
                    patterns == texts(pod_selector@),
                    predicate == (match ctime {
                        Some(p) => Some(*p),
                        None => None,
                    }),
                    state.pods() == apply_each(
                        old(state).pods(),
                        list.take(i as int),
                        patterns,
                        predicate,
                    ).pods,
                    action_models(actions@) == apply_each(
                        old(state).pods(),
                        list.take(i as int),
                        patterns,
                        predicate,
                    ).actions,
                decreases pods.len() - i,
            {
                let pod = pods[i].duplicate();
                proof {
                    assert(list.take(i + 1).drop_last() =~= list.take(i as int));
                    assert(list.take(i + 1).last() == pod@);
                }
                apply_pod(state, pod, pod_selector, ctime, &mut actions);
                i += 1;
            }
            assert(list.take(pods.len() as int) =~= list);
        },
    }
    actions
}

} // verus!
