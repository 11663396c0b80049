//! Decisions of the section pipeline. Tasks run elsewhere; these records say
//! which task may start, take each outcome as it comes back, and assemble
//! the output in the order the caller asked for, whatever the order of
//! completion.
use vstd::prelude::*;

verus! {

/// How many module tasks may be in flight at once.
pub const MODULE_CONCURRENCY: usize = 50;

/// Where one task stands.
#[derive(Clone, Debug)]
pub enum TaskState {
    Pending,
    Dispatched,
    Completed(String),
    Failed(String),
}

/// An outcome as it comes back: the slot of the task and its text or error.
pub type Outcome = (usize, Result<String, String>);

/// The state that an outcome leaves its task in.
pub open spec fn settled(r: Result<String, String>) -> TaskState {
    match r {
        Ok(t) => TaskState::Completed(t),
        Err(e) => TaskState::Failed(e),
    }
}

/// Whether a task has run to its end.
pub open spec fn is_settled(s: TaskState) -> bool {
    s is Completed || s is Failed
}

/// The states of `n` dispatched tasks after the outcomes `events`, in the
/// order they came back.
pub open spec fn after_outcomes(n: nat, events: Seq<Outcome>) -> Seq<TaskState>
    decreases events.len(),
{
    if events.len() == 0 {
        Seq::new(n, |i: int| TaskState::Dispatched)
    } else {
        let prev = after_outcomes(n, events.drop_last());
        let e = events.last();
        if e.0 < n {
            prev.update(e.0 as int, settled(e.1))
        } else {
            prev
        }
    }
}

/// Whether no two outcomes name the same slot, and every slot is below `n`.
pub open spec fn distinct_slots(n: nat, events: Seq<Outcome>) -> bool {
    &&& forall|j: int| 0 <= j < events.len() ==> #[trigger] events[j].0 < n
    &&& forall|j: int, m: int|
        0 <= j < events.len() && 0 <= m < events.len() && j != m ==> #[trigger] events[j].0
            != #[trigger] events[m].0
}

/// The first failed task, in slot order.
pub open spec fn first_failure(states: Seq<TaskState>, i: int) -> Option<int>
    decreases states.len() - i,
{
    if i < 0 || i >= states.len() {
        None
    } else if states[i] is Failed {
        Some(i)
    } else {
        first_failure(states, i + 1)
    }
}

/// The texts of the completed tasks, in slot order, joined.
pub open spec fn completed_text(states: Seq<TaskState>) -> Seq<char>
    decreases states.len(),
{
    if states.len() == 0 {
        seq![]
    } else {
        completed_text(states.drop_last()) + match states.last() {
            TaskState::Completed(t) => t@,
            _ => seq![],
        }
    }
}

/// Why a pipeline run failed: the section whose task failed first, in
/// section order, and its error.
#[derive(Clone, Debug)]
pub struct SectionFailure {
    pub section: String,
    pub error: String,
}

/// The tasks of the ordinary sections of one build: one task per section.
pub struct SectionRun {
    names: Vec<String>,
    states: Vec<TaskState>,
}

impl SectionRun {
    /// The section names, in the order asked for.
    pub closed spec fn names(&self) -> Seq<String> {
        self.names@
    }

    /// Where each section's task stands.
    pub closed spec fn states(&self) -> Seq<TaskState> {
        self.states@
    }

    pub closed spec fn wf(&self) -> bool {
        self.names@.len() == self.states@.len()
    }

    /// A run with every section pending.
    pub fn new(sections: Vec<String>) -> (r: Self)
        ensures
            r.wf(),
            r.names() == sections@,
            r.states() == Seq::new(sections@.len(), |i: int| TaskState::Pending),
    {
        let mut states: Vec<TaskState> = Vec::new();
        let mut i: usize = 0;
        while i < sections.len()
            invariant
                i <= sections@.len(),
                states@ == Seq::new(i as nat, |j: int| TaskState::Pending),
            decreases sections.len() - i,
        {
            states.push(TaskState::Pending);
            assert(states@ =~= Seq::new((i + 1) as nat, |j: int| TaskState::Pending));
            i += 1;
        }
        SectionRun { names: sections, states }
    }

    /// The number of sections.
    pub fn len(&self) -> (r: usize)
        requires
            self.wf(),
        ensures
            r == self.names().len(),
    {
        self.names.len()
    }

    /// The name of section `i`.
    pub fn name(&self, i: usize) -> (r: &String)
        requires
            self.wf(),
            i < self.names().len(),
        ensures
            *r == self.names()[i as int],
    {
        &self.names[i]
    }

    /// Marks the task of section `i` as started.
    pub fn dispatch(&mut self, i: usize)
        requires
            old(self).wf(),
            i < old(self).names().len(),
            old(self).states()[i as int] is Pending,
        ensures
            final(self).wf(),
            final(self).names() == old(self).names(),
            final(self).states() == old(self).states().update(i as int, TaskState::Dispatched),
    {
        self.states.set(i, TaskState::Dispatched);
    }

    /// Takes the outcome of the task of section `i`.
    pub fn record(&mut self, i: usize, outcome: Result<String, String>)
        requires
            old(self).wf(),
            i < old(self).names().len(),
            old(self).states()[i as int] is Dispatched,
        ensures
            final(self).wf(),
            final(self).names() == old(self).names(),
            final(self).states() == old(self).states().update(i as int, settled(outcome)),
    {
        let s = match outcome {
            Ok(t) => TaskState::Completed(t),
            Err(e) => TaskState::Failed(e),
        };
        self.states.set(i, s);
    }

    /// Whether every task has run to its end.
    pub fn all_settled(&self) -> (r: bool)
        requires
            self.wf(),
        ensures
            r == forall|i: int| 0 <= i < self.states().len() ==> is_settled(#[trigger] self.states()[i]),
    {
        let mut i: usize = 0;
        while i < self.states.len()
            invariant
                i <= self.states@.len(),
                forall|j: int| 0 <= j < i ==> is_settled(#[trigger] self.states@[j]),
            decreases self.states.len() - i,
        {
            match &self.states[i] {
                TaskState::Completed(_) | TaskState::Failed(_) => {},
                _ => {
                    assert(!is_settled(self.states()[i as int]));
                    return false;
                },
            }
            i += 1;
        }
        true
    }

    /// The output of the run once every task has ended: each section's name
    /// and text, in the order asked for; or, where a task failed, the first
    /// failed section in that order, and no output at all.
    pub fn finish(&self) -> (r: Result<Vec<(String, String)>, SectionFailure>)
        requires
            self.wf(),
            forall|i: int| 0 <= i < self.states().len() ==> is_settled(#[trigger] self.states()[i]),
        ensures
            r is Err <==> first_failure(self.states(), 0) is Some,
            r matches Err(f) ==> ({
                let j = first_failure(self.states(), 0)->0;
                &&& f.section@ == self.names()[j]@
                &&& self.states()[j] matches TaskState::Failed(e) && f.error@ == e@
            }),
            r matches Ok(v) ==> v@.len() == self.names().len() && forall|i: int|
                0 <= i < v@.len() ==> (#[trigger] v@[i]).0@ == self.names()[i]@ && (
                self.states()[i] matches TaskState::Completed(t) && v@[i].1@ == t@),
    {
        let n: usize = self.states.len();
        let mut out: Vec<(String, String)> = Vec::new();
        let mut i: usize = 0;
        while i < n
            invariant
                n == self.states@.len(),
                self.wf(),
                forall|j: int| 0 <= j < self.states@.len() ==> is_settled(#[trigger] self.states@[j]),
                i <= n,
                out@.len() == i,
                first_failure(self.states@, 0) == first_failure(self.states@, i as int),
                forall|j: int| 0 <= j < i ==> self.states@[j] is Completed,
                forall|j: int|
                    0 <= j < i ==> (#[trigger] out@[j]).0@ == self.names@[j]@ && (
                    self.states@[j] matches TaskState::Completed(t) && out@[j].1@ == t@),
            decreases n - i,
        {
            match &self.states[i] {
                TaskState::Completed(t) => {
                    out.push((self.names[i].clone(), t.clone()));
                },
                TaskState::Failed(e) => {
                    return Err(SectionFailure { section: self.names[i].clone(), error: e.clone() });
                },
                _ => {
                    assert(is_settled(self.states@[i as int]));
                    return Err(SectionFailure { section: self.names[i].clone(), error: String::new() });
                },
            }
            i += 1;
        }
        Ok(out)
    }
}

/// The tasks of the per-module section: one per module, at most
/// [`MODULE_CONCURRENCY`] of them in flight.
pub struct ModuleRun {
    states: Vec<TaskState>,
    in_flight: usize,
}

/// How many tasks are dispatched and not yet ended.
pub open spec fn count_dispatched(states: Seq<TaskState>) -> nat
    decreases states.len(),
{
    if states.len() == 0 {
        0
    } else {
        count_dispatched(states.drop_last()) + if states.last() is Dispatched {
            1nat
        } else {
            0nat
        }
    }
}

impl ModuleRun {
    /// Where each module's task stands, in module order.
    pub closed spec fn states(&self) -> Seq<TaskState> {
        self.states@
    }

    /// How many tasks are in flight.
    pub closed spec fn in_flight(&self) -> nat {
        self.in_flight as nat
    }

    pub closed spec fn wf(&self) -> bool {
        &&& self.in_flight as nat == count_dispatched(self.states@)
        &&& self.in_flight <= MODULE_CONCURRENCY
    }

    /// A run over `n` modules, all pending.
    pub fn new(n: usize) -> (r: Self)
        ensures
            r.wf(),
            r.states() == Seq::new(n as nat, |i: int| TaskState::Pending),
            r.in_flight() == 0,
    {
        let mut states: Vec<TaskState> = Vec::new();
        let mut i: usize = 0;
        while i < n
            invariant
                i <= n,
                states@ == Seq::new(i as nat, |j: int| TaskState::Pending),
                count_dispatched(states@) == 0,
            decreases n - i,
        {
            let ghost before = states@;
            states.push(TaskState::Pending);
            assert(states@.drop_last() =~= before);
            assert(states@ =~= Seq::new((i + 1) as nat, |j: int| TaskState::Pending));
            i += 1;
        }
        ModuleRun { states, in_flight: 0 }
    }

    /// The number of modules.
    pub fn len(&self) -> (r: usize)
        ensures
            r == self.states().len(),
    {
        self.states.len()
    }

    /// Whether one more task may start now.
    pub fn has_room(&self) -> (r: bool)
        requires
            self.wf(),
        ensures
            r == (self.in_flight() < MODULE_CONCURRENCY),
    {
        self.in_flight < MODULE_CONCURRENCY
    }

    /// Starts the task of module `i`; there must be room for it.
    pub fn dispatch(&mut self, i: usize)
        requires
            old(self).wf(),
            i < old(self).states().len(),
            old(self).states()[i as int] is Pending,
            old(self).in_flight() < MODULE_CONCURRENCY,
        ensures
            final(self).wf(),
            final(self).states() == old(self).states().update(i as int, TaskState::Dispatched),
            final(self).in_flight() == old(self).in_flight() + 1,
    {
        proof {
            lemma_count_update(self.states@, i as int, TaskState::Dispatched);
        }
        self.states.set(i, TaskState::Dispatched);
        self.in_flight = self.in_flight + 1;
    }

    /// Takes the outcome of the task of module `i`; its place frees up.
    pub fn record(&mut self, i: usize, outcome: Result<String, String>)
        requires
            old(self).wf(),
            i < old(self).states().len(),
            old(self).states()[i as int] is Dispatched,
        ensures
            final(self).wf(),
            final(self).states() == old(self).states().update(i as int, settled(outcome)),
            final(self).in_flight() == old(self).in_flight() - 1,
    {
        let s = match outcome {
            Ok(t) => TaskState::Completed(t),
            Err(e) => TaskState::Failed(e),
        };
        proof {
            lemma_count_update(self.states@, i as int, s);
            lemma_count_positive(self.states@, i as int);
        }
        self.states.set(i, s);
        self.in_flight = self.in_flight - 1;
    }

    /// The joined texts of the modules whose task completed, in module
    /// order; a module whose task failed contributes nothing.
    pub fn finish(&self) -> (r: String)
        ensures
            r@ == completed_text(self.states()),
    {
        let mut out = String::new();
        let mut i: usize = 0;
        while i < self.states.len()
            invariant
                i <= self.states@.len(),
                out@ == completed_text(self.states@.take(i as int)),
            decreases self.states.len() - i,
        {
            assert(self.states@.take(i + 1).drop_last() =~= self.states@.take(i as int));
            match &self.states[i] {
                TaskState::Completed(t) => {
                    out.append(t.as_str());
                },
                _ => {
                    assert(out@ =~= out@ + seq![]);
                },
            }
            i += 1;
        }
        assert(self.states@.take(i as int) =~= self.states@);
        out
    }
}

/// The last outcome that names slot `i`.
pub open spec fn outcome_for(events: Seq<Outcome>, i: usize) -> Option<Result<String, String>>
    decreases events.len(),
{
    if events.len() == 0 {
        None
    } else if events.last().0 == i {
        Some(events.last().1)
    } else {
        outcome_for(events.drop_last(), i)
    }
}

proof fn lemma_after_outcomes_at(n: nat, events: Seq<Outcome>, i: usize)
    requires
        i < n,
    ensures
        after_outcomes(n, events).len() == n,
        after_outcomes(n, events)[i as int] == match outcome_for(events, i) {
            Some(r) => settled(r),
            None => TaskState::Dispatched,
        },
    decreases events.len(),
{
    if events.len() > 0 {
        lemma_after_outcomes_at(n, events.drop_last(), i);
    }
}

proof fn lemma_outcome_for_member(events: Seq<Outcome>, i: usize, r: Result<String, String>)
    requires
        forall|j: int, m: int|
            0 <= j < events.len() && 0 <= m < events.len() && j != m ==> #[trigger] events[j].0
                != #[trigger] events[m].0,
    ensures
        events.contains((i, r)) <==> outcome_for(events, i) == Some(r),
    decreases events.len(),
{
    if events.len() > 0 {
        let init = events.drop_last();
        lemma_outcome_for_member(init, i, r);
        if events.last().0 == i {
            if init.contains((i, r)) {
                let j = choose|j: int| 0 <= j < init.len() && init[j] == (i, r);
                assert(events[j].0 == events[events.len() - 1].0);
            }
        }
        if events.contains((i, r)) {
            let j = choose|j: int| 0 <= j < events.len() && events[j] == (i, r);
            if j < events.len() - 1 {
                assert(init[j] == (i, r));
            }
        }
        if init.contains((i, r)) {
            let j = choose|j: int| 0 <= j < init.len() && init[j] == (i, r);
            assert(events[j] == (i, r));
        }
    }
}

proof fn lemma_outcome_for_none(events: Seq<Outcome>, i: usize)
    ensures
        outcome_for(events, i) is None <==> forall|j: int| 0 <= j < events.len() ==> #[trigger] events[j].0 != i,
    decreases events.len(),
{
    if events.len() > 0 {
        lemma_outcome_for_none(events.drop_last(), i);
        if outcome_for(events, i) is None {
            assert forall|j: int| 0 <= j < events.len() implies #[trigger] events[j].0 != i by {
                if j < events.len() - 1 {
                    assert(events.drop_last()[j] == events[j]);
                }
            }
        }
        if forall|j: int| 0 <= j < events.len() ==> #[trigger] events[j].0 != i {
            assert forall|j: int| 0 <= j < events.drop_last().len() implies #[trigger] events.drop_last()[j].0 != i by {
                assert(events.drop_last()[j] == events[j]);
            }
        }
    }
}

/// Whatever order the outcomes of a run come back in, the tasks end in the
/// same states: two runs over `n` tasks that took the same outcomes, each
/// task at most once, agree on every task.
pub proof fn lemma_outcome_order_irrelevant(n: nat, first: Seq<Outcome>, second: Seq<Outcome>)
    requires
        n <= usize::MAX,
        distinct_slots(n, first),
        distinct_slots(n, second),
        first.to_set() == second.to_set(),
    ensures
        after_outcomes(n, first) == after_outcomes(n, second),
{
    assert forall|i: int| 0 <= i < n implies after_outcomes(n, first)[i] == after_outcomes(
        n,
        second,
    )[i] by {
        let u = i as usize;
        lemma_after_outcomes_at(n, first, u);
        lemma_after_outcomes_at(n, second, u);
        lemma_outcome_for_none(first, u);
        lemma_outcome_for_none(second, u);
        match outcome_for(first, u) {
            Some(r) => {
                lemma_outcome_for_member(first, u, r);
                assert(first.to_set().contains((u, r)));
                lemma_outcome_for_member(second, u, r);
            },
            None => {
                match outcome_for(second, u) {
                    Some(r) => {
                        lemma_outcome_for_member(second, u, r);
                        assert(second.to_set().contains((u, r)));
                        lemma_outcome_for_member(first, u, r);
                    },
                    None => {},
                }
            },
        }
    }
    lemma_after_outcomes_at_len(n, first);
    lemma_after_outcomes_at_len(n, second);
    assert(after_outcomes(n, first) =~= after_outcomes(n, second));
}

proof fn lemma_after_outcomes_at_len(n: nat, events: Seq<Outcome>)
    ensures
        after_outcomes(n, events).len() == n,
    decreases events.len(),
{
    if events.len() > 0 {
        lemma_after_outcomes_at_len(n, events.drop_last());
    }
}

/// A module whose task failed is left out of the joined text, and only it:
/// the text is what the modules before it and those after it give.
pub proof fn lemma_failed_module_left_out(states: Seq<TaskState>, j: int)
    requires
        0 <= j < states.len(),
        states[j] is Failed,
    ensures
        completed_text(states) == completed_text(states.take(j)) + completed_text(
            states.skip(j + 1),
        ),
{
    lemma_completed_text_split(states, j);
    lemma_completed_text_split(states.skip(j), 1);
    let one = seq![states[j]];
    assert(states.skip(j).take(1) =~= one);
    assert(one.drop_last() =~= Seq::<TaskState>::empty());
    assert(completed_text(one.drop_last()) == Seq::<char>::empty());
    assert(one.last() is Failed);
    assert(completed_text(one) =~= Seq::<char>::empty());
    assert(states.skip(j).skip(1) =~= states.skip(j + 1));
}

/// The joined text of the completed tasks splits at any position.
pub proof fn lemma_completed_text_split(states: Seq<TaskState>, j: int)
    requires
        0 <= j <= states.len(),
    ensures
        completed_text(states) == completed_text(states.take(j)) + completed_text(states.skip(j)),
    decreases states.len(),
{
    if j == states.len() {
        assert(states.take(j) =~= states);
        assert(states.skip(j) =~= seq![]);
        assert(completed_text(states) + seq![] =~= completed_text(states));
    } else {
        lemma_completed_text_split(states.drop_last(), j);
        assert(states.drop_last().take(j) =~= states.take(j));
        assert(states.skip(j).drop_last() =~= states.drop_last().skip(j));
        assert(states.skip(j).last() == states.last());
        assert(completed_text(states) =~= completed_text(states.take(j)) + completed_text(
            states.skip(j),
        ));
    }
}

proof fn lemma_count_update(states: Seq<TaskState>, i: int, s: TaskState)
    requires
        0 <= i < states.len(),
    ensures
        count_dispatched(states.update(i, s)) + (if states[i] is Dispatched {
            1int
        } else {
            0int
        }) == count_dispatched(states) + (if s is Dispatched {
            1int
        } else {
            0int
        }),
    decreases states.len(),
{
    if i < states.len() - 1 {
        lemma_count_update(states.drop_last(), i, s);
        assert(states.update(i, s).drop_last() =~= states.drop_last().update(i, s));
    } else {
        assert(states.update(i, s).drop_last() =~= states.drop_last());
    }
}

proof fn lemma_count_positive(states: Seq<TaskState>, i: int)
    requires
        0 <= i < states.len(),
        states[i] is Dispatched,
    ensures
        count_dispatched(states) >= 1,
    decreases states.len(),
{
    if i < states.len() - 1 {
        lemma_count_positive(states.drop_last(), i);
    }
}

} // verus!
verus! {

/// Whether task `i` has given its outcome among `events`.
pub open spec fn has_ended(events: Seq<Outcome>, i: int) -> bool {
    exists|j: int| 0 <= j < events.len() && (#[trigger] events[j]).0 == i
}

/// Whether every one of the `n` tasks has given its outcome among `events`,
/// the outcome of task `i` being `outs[i]`.
pub open spec fn all_ended(n: nat, events: Seq<Outcome>, outs: Seq<Result<String, String>>) -> bool {
    &&& outs.len() == n
    &&& forall|i: int| 0 <= i < n ==> #[trigger] has_ended(events, i)
    &&& forall|j: int| 0 <= j < events.len() ==> (#[trigger] events[j]).0 < n && events[j].1 == outs[events[j].0 as int]
}

/// Once every task has ended, each stands as its outcome left it, whatever
/// the order the outcomes came in.
pub proof fn lemma_all_ended(n: nat, events: Seq<Outcome>, outs: Seq<Result<String, String>>)
    requires
        n <= usize::MAX,
        distinct_slots(n, events),
        all_ended(n, events, outs),
    ensures
        after_outcomes(n, events) == Seq::new(n, |i: int| settled(outs[i])),
{
    lemma_after_outcomes_at_len(n, events);
    assert forall|i: int| 0 <= i < n implies after_outcomes(n, events)[i] == settled(outs[i]) by {
        let u = i as usize;
        assert(has_ended(events, i));
        let j = choose|j: int| 0 <= j < events.len() && (#[trigger] events[j]).0 == i;
        assert(events[j] == (u, outs[i]));
        lemma_outcome_for_member(events, u, outs[i]);
        lemma_after_outcomes_at(n, events, u);
    }
    assert(after_outcomes(n, events) =~= Seq::new(n, |i: int| settled(outs[i])));
}

/// The texts joined in order.
pub open spec fn joined_texts(v: Seq<String>) -> Seq<char>
    decreases v.len(),
{
    if v.len() == 0 {
        seq![]
    } else {
        joined_texts(v.drop_last()) + v.last()@
    }
}

proof fn lemma_completed_all(frags: Seq<String>)
    ensures
        completed_text(Seq::new(frags.len(), |i: int| settled(Ok(frags[i])))) == joined_texts(frags),
    decreases frags.len(),
{
    if frags.len() > 0 {
        let init = frags.drop_last();
        lemma_completed_all(init);
        assert(Seq::new(frags.len(), |i: int| settled(Ok(frags[i]))).drop_last() =~= Seq::new(
            init.len(),
            |i: int| settled(Ok(init[i])),
        ));
    }
}

/// When every module task succeeds, the joined text is their fragments in
/// module order, whatever the order the tasks ended in.
pub proof fn lemma_modules_in_module_order(n: nat, events: Seq<Outcome>, frags: Seq<String>)
    requires
        n <= usize::MAX,
        frags.len() == n,
        distinct_slots(n, events),
        all_ended(n, events, frags.map_values(|f: String| Ok::<String, String>(f))),
    ensures
        completed_text(after_outcomes(n, events)) == joined_texts(frags),
{
    let outs = frags.map_values(|f: String| Ok::<String, String>(f));
    lemma_all_ended(n, events, outs);
    assert(Seq::new(n, |i: int| settled(outs[i])) =~= Seq::new(
        frags.len(),
        |i: int| settled(Ok(frags[i])),
    ));
    lemma_completed_all(frags);
}

proof fn lemma_failure_found(states: Seq<TaskState>, i: int, s: int)
    requires
        0 <= i <= s < states.len(),
        states[s] is Failed,
    ensures
        first_failure(states, i) is Some,
    decreases s - i,
{
    if !(states[i] is Failed) {
        lemma_failure_found(states, i + 1, s);
    }
}

/// When the task of one section fails and every task has ended, the run
/// has every task settled and a first failure, so it gives no output.
pub proof fn lemma_failed_section_fails(
    n: nat,
    events: Seq<Outcome>,
    outs: Seq<Result<String, String>>,
    s: int,
)
    requires
        n <= usize::MAX,
        distinct_slots(n, events),
        all_ended(n, events, outs),
        0 <= s < n,
        outs[s] is Err,
    ensures
        forall|i: int| 0 <= i < n ==> is_settled(#[trigger] after_outcomes(n, events)[i]),
        first_failure(after_outcomes(n, events), 0) is Some,
{
    lemma_all_ended(n, events, outs);
    lemma_failure_found(after_outcomes(n, events), 0, s);
}

} // verus!
