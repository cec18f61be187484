//! The supervisor's registry: which pods are tailed, and in which colour.

use crate::pod::{PodIdentity, PodModel};
use vstd::hash_map::StringHashMap;
use vstd::prelude::*;

verus! {

/// The number of colours that pods are told apart by.
pub const PALETTE_SIZE: usize = 5;

/// A colour of the palette.
#[derive(Clone, Copy, Debug, PartialEq, Eq, Structural)]
pub enum Color {
    Red,
    Blue,
    Green,
    Cyan,
    Yellow,
}

/// The palette, by index.
pub open spec fn color_set(idx: int) -> Color {
    if idx == 0 {
        Color::Red
    } else if idx == 1 {
        Color::Blue
    } else if idx == 2 {
        Color::Green
    } else if idx == 3 {
        Color::Cyan
    } else {
        Color::Yellow
    }
}

/// The colour at `idx` of the palette.
pub fn color_at(idx: usize) -> (color: Color)
    requires
        idx < PALETTE_SIZE,
    ensures
        color == color_set(idx as int),
{
    if idx == 0 {
        Color::Red
    } else if idx == 1 {
        Color::Blue
    } else if idx == 2 {
        Color::Green
    } else if idx == 3 {
        Color::Cyan
    } else {
        Color::Yellow
    }
}

/// A text and the colour to show it in.
#[derive(Debug)]
pub struct ColoredLabel {
    pub text: String,
    pub color: Color,
}

/// The order to tail one pod's log, with the colour that was assigned to it.
#[derive(Debug)]
pub struct StreamTask {
    pub pod: PodIdentity,
    pub color: Color,
}

/// A task as contracts speak of it.
pub struct TaskModel {
    pub pod: PodModel,
    pub color: Color,
}

impl View for StreamTask {
    type V = TaskModel;

    open spec fn view(&self) -> TaskModel {
        TaskModel { pod: self.pod@, color: self.color }
    }
}

/// The registry after `name` was offered to it. A name that it holds changes
/// nothing; a new one gets the palette index that follows the number of pods
/// registered so far, and the index wraps at the palette's end.
pub open spec fn register(pods: Map<Seq<char>, usize>, name: Seq<char>) -> Map<Seq<char>, usize> {
    if pods.contains_key(name) {
        pods
    } else {
        pods.insert(name, (pods.len() % PALETTE_SIZE as nat) as usize)
    }
}

/// The registry after each of `names` was offered to the empty one, in order.
pub open spec fn register_all(names: Seq<Seq<char>>) -> Map<Seq<char>, usize>
    decreases names.len(),
{
    if names.len() == 0 {
        Map::empty()
    } else {
        register(register_all(names.drop_last()), names.last())
    }
}

/// Offering a name adds at most that name, keeps the registry finite and
/// leaves every pod that was registered with the index it had.
pub proof fn lemma_register_keeps(pods: Map<Seq<char>, usize>, name: Seq<char>)
    requires
        pods.dom().finite(),
    ensures
        register(pods, name).dom().finite(),
        register(pods, name).dom() == pods.dom().insert(name),
        register(pods, name).len() == pods.len() + (if pods.contains_key(name) {
            0nat
        } else {
            1nat
        }),
        forall|other: Seq<char>| #[trigger]
            pods.contains_key(other) ==> register(pods, name)[other] == pods[other],
{
    if pods.contains_key(name) {
        assert(pods.dom().insert(name) =~= pods.dom());
    }
}

/// Registering the same name twice is registering it once: the second offer
/// finds the name, leaves the registry as it is, and the registry has grown
/// by one entry at most.
pub proof fn law_register_is_idempotent(pods: Map<Seq<char>, usize>, name: Seq<char>)
    requires
        pods.dom().finite(),
    ensures
        register(pods, name).contains_key(name),
        register(register(pods, name), name) == register(pods, name),
        register(register(pods, name), name).len() <= pods.len() + 1,
{
    lemma_register_keeps(pods, name);
}

/// The registry that a run of offers builds holds exactly the names that
/// were offered.
pub proof fn lemma_register_all_names(names: Seq<Seq<char>>)
    ensures
        register_all(names).dom().finite(),
        register_all(names).dom() == names.to_set(),
    decreases names.len(),
{
    if names.len() == 0 {
        assert(names.to_set() =~= Set::<Seq<char>>::empty());
    } else {
        let front = names.drop_last();
        lemma_register_all_names(front);
        lemma_register_keeps(register_all(front), names.last());
        assert(names.to_set() =~= front.to_set().insert(names.last())) by {
            assert forall|x: Seq<char>| names.to_set().contains(x) implies front.to_set().insert(
                names.last(),
            ).contains(x) by {
                let i = choose|i: int| 0 <= i < names.len() && names[i] == x;
                if i < names.len() - 1 {
                    assert(front[i] == x);
                }
            }
            assert forall|x: Seq<char>| front.to_set().insert(names.last()).contains(
                x,
            ) implies names.to_set().contains(x) by {
                if x == names.last() {
                    assert(names[names.len() - 1] == x);
                } else {
                    let i = choose|i: int| 0 <= i < front.len() && front[i] == x;
                    assert(names[i] == x);
                }
            }
        }
    }
}

/// Colours go round the palette in the order in which pods are first seen:
/// a name that is new at position `k` of a run of offers gets the index
/// `n % PALETTE_SIZE`, where `n` is the number of distinct names offered
/// before it, and keeps that index whatever is offered later.
pub proof fn law_round_robin(names: Seq<Seq<char>>, k: int)
    requires
        0 <= k < names.len(),
        !names.take(k).contains(names[k]),
    ensures
        register_all(names).contains_key(names[k]),
        register_all(names)[names[k]] == names.take(k).to_set().len() % PALETTE_SIZE as nat,
    decreases names.len(),
{
    let front = names.drop_last();
    lemma_register_all_names(front);
    lemma_register_keeps(register_all(front), names.last());
    if k == names.len() - 1 {
        assert(names.take(k) =~= front);
        assert(!front.to_set().contains(names[k]));
    } else {
        assert(front.take(k) =~= names.take(k));
        assert(front[k] == names[k]);
        law_round_robin(front, k);
    }
}

/// The supervisor's state: the pods under supervision, each with the palette
/// index that it was given, and the index that the next new pod will get.
pub struct State {
    pod_log: StringHashMap<usize>,
    color_idx: usize,
}

impl State {
    /// The registry: each supervised pod's name with its palette index.
    pub closed spec fn pods(&self) -> Map<Seq<char>, usize> {
        self.pod_log@
    }

    /// The palette index that the next new pod will get.
    pub closed spec fn next_color(&self) -> usize {
        self.color_idx
    }

    /// The registry is finite, every pod's index lies in the palette, and the
    /// next index is the number of pods so far, wrapped at the palette's end.
    pub open spec fn wf(&self) -> bool {
        &&& self.pods().dom().finite()
        &&& self.next_color() == self.pods().len() % PALETTE_SIZE as nat
        &&& forall|name: Seq<char>| #[trigger]
            self.pods().contains_key(name) ==> self.pods()[name] < PALETTE_SIZE
    }

    /// A supervisor with no pod.
    pub fn new() -> (state: State)
        ensures
            state.wf(),
            state.pods() == Map::<Seq<char>, usize>::empty(),
    {
        State { pod_log: StringHashMap::new(), color_idx: 0 }
    }

    /// Whether the pod of that name is supervised.
    pub fn is_registered(&self, name: &str) -> (b: bool)
        ensures
            b == self.pods().contains_key(name@),
    {
        self.pod_log.contains_key(name)
    }

    /// The colour of the pod of that name, if it is supervised.
    pub fn color_of(&self, name: &str) -> (color: Option<Color>)
        requires
            self.wf(),
        ensures
            color == (if self.pods().contains_key(name@) {
                Some(color_set(self.pods()[name@] as int))
            } else {
                None
            }),
    {
        match self.pod_log.get(name) {
            Some(idx) => Some(color_at(*idx)),
            None => None,
        }
    }

    /// Takes `pod` under supervision unless a pod of its name is supervised
    /// already. A new pod gets the next colour of the palette, and the task
    /// that comes back is the order to tail its log; for a pod that is
    /// supervised already nothing changes and no task comes back.
    pub fn add_pod(&mut self, pod: PodIdentity) -> (task: Option<StreamTask>)
        requires
            old(self).wf(),
        ensures
            final(self).wf(),
            final(self).pods() == register(old(self).pods(), pod.name@),
            match task {
                None => old(self).pods().contains_key(pod.name@),
                Some(t) => !old(self).pods().contains_key(pod.name@) && t@ == (TaskModel {
                    pod: pod@,
                    color: color_set((old(self).pods().len() % PALETTE_SIZE as nat) as int),
                }),
            },
    {
        if self.pod_log.contains_key(pod.name.as_str()) {
            return None;
        }
        let idx: usize = self.color_idx;
        let color = color_at(idx);
        self.color_idx = (self.color_idx + 1) % PALETTE_SIZE;
        self.pod_log.insert(pod.name.clone(), idx);
        Some(StreamTask { pod, color })
    }

    /// `line` with the colour to show it in.
    pub fn get_colored_string(line: &str, color: &Color) -> (label: ColoredLabel)
        ensures
            label.text@ == line@,
            label.color == *color,
    {
        ColoredLabel { text: line.to_owned(), color: *color }
    }
}

} // verus!
