//! JADE-style behaviour scheduling.
//!
//! Behaviours are registered by agents and scheduled by the host runtime:
//! one-shot, cyclic, ticker (fixed interval), waker (once after a delay),
//! sequential/parallel composites and finite state machines.
use vstd::prelude::*;
use std::collections::HashMap;
use vstd::std_specs::iter::IteratorSpec;
use crate::text::{concat, owned};
use crate::clock::wall_clock_millis;

verus! {

broadcast use vstd::std_specs::hash::group_hash_axioms;

/// Behaviour type.
#[derive(Clone, Copy, Debug, PartialEq, Eq, Structural)]
pub enum BehaviorType {
    /// Executes once then completes.
    OneShot,
    /// Repeats indefinitely until blocked.
    Cyclic,
    /// Executes at fixed time intervals.
    Ticker,
    /// Executes once after a delay.
    Waker,
    /// Runs sub-behaviours in sequence.
    Sequential,
    /// Runs sub-behaviours concurrently.
    Parallel,
    /// Finite state machine with named states.
    FSM,
}

/// Parallel behaviour completion condition.
#[derive(Clone, Copy, Debug, PartialEq, Eq, Structural)]
pub enum ParallelCompletion {
    /// Complete when all sub-behaviours finish.
    WhenAll,
    /// Complete when any sub-behaviour finishes.
    WhenAny,
    /// Complete when N sub-behaviours finish.
    WhenN(u32),
}

impl Default for ParallelCompletion {
    fn default() -> (r: Self)
        ensures
            r == ParallelCompletion::WhenAll,
    {
        ParallelCompletion::WhenAll
    }
}

/// FSM state transition.
#[derive(Clone, Debug)]
pub struct FSMTransition {
    pub from_state: String,
    pub to_state: String,
    pub event: String,
}

/// Behaviour configuration.
#[derive(Clone, Debug)]
pub struct BehaviorConfig {
    /// Behaviour type.
    pub behavior_type: Option<BehaviorType>,
    /// Tick interval for a ticker (ms).
    pub tick_interval_ms: Option<u64>,
    /// Wake delay for a waker (ms).
    pub wake_after_ms: Option<u64>,
    /// Sub-behaviour ids for composite behaviours.
    pub sub_behaviors: Vec<u64>,
    /// Completion condition for parallel behaviours.
    pub parallel_completion: Option<ParallelCompletion>,
    /// Initial state for FSM behaviours.
    pub fsm_initial_state: Option<String>,
    /// Transitions for FSM behaviours.
    pub fsm_transitions: Vec<FSMTransition>,
}

impl Default for BehaviorConfig {
    fn default() -> (c: Self)
        ensures
            c.behavior_type is None,
            c.tick_interval_ms is None,
            c.wake_after_ms is None,
            c.sub_behaviors@.len() == 0,
            c.parallel_completion is None,
            c.fsm_initial_state is None,
            c.fsm_transitions@.len() == 0,
    {
        BehaviorConfig {
            behavior_type: None,
            tick_interval_ms: None,
            wake_after_ms: None,
            sub_behaviors: Vec::new(),
            parallel_completion: None,
            fsm_initial_state: None,
            fsm_transitions: Vec::new(),
        }
    }
}

/// Behaviour execution status.
#[derive(Clone, Copy, Debug, PartialEq, Eq, Structural)]
pub enum BehaviorStatus {
    /// Ready to run.
    Ready,
    /// Currently executing.
    Running,
    /// Blocked/paused.
    Blocked,
    /// Completed.
    Done,
}

/// Behaviour error types.
#[derive(Clone, Debug)]
pub enum BehaviorError {
    NotFound(u64),
    InvalidConfig(String),
    AlreadyRunning,
    SubBehaviorError(String),
    FSMError(String),
}

impl BehaviorError {
    /// The error's message.
    pub fn message(&self) -> (s: String)
        ensures
            self matches BehaviorError::InvalidConfig(m) ==> s@ == "Invalid configuration: "@ + m@,
            self matches BehaviorError::FSMError(m) ==> s@ == "FSM error: "@ + m@,
            self matches BehaviorError::SubBehaviorError(m) ==> s@ == "Sub-behavior error: "@ + m@,
            self is AlreadyRunning ==> s@ == "Behavior already running"@,
    {
        match self {
            BehaviorError::NotFound(_) => owned("Behavior not found"),
            BehaviorError::InvalidConfig(m) => concat("Invalid configuration: ", m.as_str()),
            BehaviorError::AlreadyRunning => owned("Behavior already running"),
            BehaviorError::SubBehaviorError(m) => concat("Sub-behavior error: ", m.as_str()),
            BehaviorError::FSMError(m) => concat("FSM error: ", m.as_str()),
        }
    }
}

/// A registered behaviour instance.
#[derive(Clone, Debug)]
pub struct Behavior {
    /// Unique behaviour id.
    pub id: u64,
    /// Behaviour name.
    pub name: String,
    /// Behaviour type.
    pub behavior_type: BehaviorType,
    /// Current status.
    pub status: BehaviorStatus,
    /// Configuration.
    pub config: BehaviorConfig,
    /// Last execution time (monotonic ms).
    pub last_run_ms: Option<u64>,
    /// Next scheduled run time (ticker/waker).
    pub next_run_ms: Option<u64>,
    /// Execution count.
    pub run_count: u64,
    /// Current FSM state.
    pub fsm_current_state: Option<String>,
    /// Sequential behaviour: current sub-behaviour index.
    pub sequential_index: usize,
    /// Parallel behaviour: completed sub-behaviour count.
    pub parallel_completed: u32,
    /// Whether the start callback has run.
    pub started: bool,
}

fn clone_opt_string(o: &Option<String>) -> (r: Option<String>)
    ensures
        r == *o,
{
    match o {
        Some(s) => Some(s.clone()),
        None => None,
    }
}

/// Whether a behaviour is due to run at `now`.
pub open spec fn should_run_spec(b: Behavior, now: u64) -> bool {
    &&& b.status == BehaviorStatus::Ready
    &&& match b.behavior_type {
        BehaviorType::OneShot => b.run_count == 0,
        BehaviorType::Ticker | BehaviorType::Waker => match b.next_run_ms {
            Some(t) => now >= t,
            None => true,
        },
        _ => true,
    }
}

/// Whether recording a run at `now` stays within the counters' ranges.
pub open spec fn after_run_fits(b: Behavior, now: u64, is_done: bool) -> bool {
    &&& b.run_count < u64::MAX
    &&& (!is_done && b.behavior_type == BehaviorType::Ticker && b.config.tick_interval_ms is Some)
        ==> now + b.config.tick_interval_ms.unwrap() <= u64::MAX
}

/// The behaviour after a run that ended at `now`.
pub open spec fn after_run_spec(b: Behavior, now: u64, is_done: bool) -> Behavior {
    let counted = Behavior { last_run_ms: Some(now), run_count: (b.run_count + 1) as u64, ..b };
    if is_done {
        Behavior { status: BehaviorStatus::Done, ..counted }
    } else {
        let next = if b.behavior_type == BehaviorType::Ticker && b.config.tick_interval_ms is Some {
            Some((now + b.config.tick_interval_ms.unwrap()) as u64)
        } else {
            b.next_run_ms
        };
        Behavior {
            status: if b.behavior_type == BehaviorType::Waker { BehaviorStatus::Done } else { BehaviorStatus::Ready },
            next_run_ms: next,
            ..counted
        }
    }
}

/// A behaviour as freshly made from its configuration.
pub open spec fn fresh_behavior(id: u64, name: String, behavior_type: BehaviorType, config: BehaviorConfig) -> Behavior {
    Behavior {
        id,
        name,
        behavior_type,
        status: BehaviorStatus::Ready,
        config,
        last_run_ms: None,
        next_run_ms: None,
        run_count: 0,
        fsm_current_state: config.fsm_initial_state,
        sequential_index: 0,
        parallel_completed: 0,
        started: false,
    }
}

/// The behaviour back in its initial state (status, counters, FSM state).
pub open spec fn reset_spec(b: Behavior) -> Behavior {
    Behavior {
        status: BehaviorStatus::Ready,
        run_count: 0,
        started: false,
        sequential_index: 0,
        parallel_completed: 0,
        fsm_current_state: b.config.fsm_initial_state,
        ..b
    }
}

impl Behavior {
    /// Create a new behaviour.
    pub fn new(id: u64, name: String, behavior_type: BehaviorType, config: BehaviorConfig) -> (b: Self)
        ensures
            b == fresh_behavior(id, name, behavior_type, config),
    {
        let fsm_current_state = clone_opt_string(&config.fsm_initial_state);
        Behavior {
            id,
            name,
            behavior_type,
            status: BehaviorStatus::Ready,
            config,
            last_run_ms: None,
            next_run_ms: None,
            run_count: 0,
            fsm_current_state,
            sequential_index: 0,
            parallel_completed: 0,
            started: false,
        }
    }

    /// Whether the behaviour should run now.
    pub fn should_run(&self, current_ms: u64) -> (r: bool)
        ensures
            r == should_run_spec(*self, current_ms),
    {
        match self.status {
            BehaviorStatus::Ready => {},
            _ => {
                return false;
            },
        }
        match self.behavior_type {
            BehaviorType::OneShot => self.run_count == 0,
            BehaviorType::Cyclic => true,
            BehaviorType::Ticker | BehaviorType::Waker => match self.next_run_ms {
                Some(t) => current_ms >= t,
                None => true,
            },
            BehaviorType::Sequential | BehaviorType::Parallel | BehaviorType::FSM => true,
        }
    }

    /// Mark the behaviour as done.
    pub fn mark_done(&mut self)
        ensures
            *final(self) == (Behavior { status: BehaviorStatus::Done, ..*old(self) }),
    {
        self.status = BehaviorStatus::Done;
    }

    /// Update after an execution that ended at `current_ms`.
    pub fn after_run(&mut self, current_ms: u64, is_done: bool)
        requires
            after_run_fits(*old(self), current_ms, is_done),
        ensures
            *final(self) == after_run_spec(*old(self), current_ms, is_done),
            old(self).behavior_type == BehaviorType::Waker ==> final(self).status == BehaviorStatus::Done,
            is_done ==> final(self).status == BehaviorStatus::Done,
    {
        self.last_run_ms = Some(current_ms);
        self.run_count = self.run_count + 1;
        self.status = BehaviorStatus::Ready;
        if is_done {
            self.mark_done();
            return;
        }
        match self.behavior_type {
            BehaviorType::Ticker => {
                if let Some(interval) = self.config.tick_interval_ms {
                    self.next_run_ms = Some(current_ms + interval);
                }
            },
            BehaviorType::Waker => {
                self.mark_done();
            },
            _ => {},
        }
    }
}

/// Index of the first transition leaving `state` on `event`, if any.
pub open spec fn fsm_match(ts: Seq<FSMTransition>, state: Seq<char>, event: Seq<char>) -> Option<int> {
    if exists|i: int| 0 <= i < ts.len() && (#[trigger] ts[i]).from_state@ == state && ts[i].event@ == event {
        Some(choose|i: int| 0 <= i < ts.len() && (#[trigger] ts[i]).from_state@ == state && ts[i].event@ == event
            && forall|j: int| 0 <= j < i ==> !((#[trigger] ts[j]).from_state@ == state && ts[j].event@ == event))
    } else {
        None
    }
}

proof fn lemma_fsm_match(ts: Seq<FSMTransition>, state: Seq<char>, event: Seq<char>, i: int)
    requires
        0 <= i < ts.len(),
        ts[i].from_state@ == state && ts[i].event@ == event,
        forall|j: int| 0 <= j < i ==> !((#[trigger] ts[j]).from_state@ == state && ts[j].event@ == event),
    ensures
        fsm_match(ts, state, event) == Some(i),
{
    let k = choose|k: int| 0 <= k < ts.len() && (#[trigger] ts[k]).from_state@ == state && ts[k].event@ == event
        && forall|j: int| 0 <= j < k ==> !((#[trigger] ts[j]).from_state@ == state && ts[j].event@ == event);
    assert(0 <= i < ts.len() && ts[i].from_state@ == state && ts[i].event@ == event
        && forall|j: int| 0 <= j < i ==> !((#[trigger] ts[j]).from_state@ == state && ts[j].event@ == event));
    if k < i {
        assert(!(ts[k].from_state@ == state && ts[k].event@ == event));
    } else if k > i {
        assert(!(ts[i].from_state@ == state && ts[i].event@ == event));
    }
}

/// The first transition leaving `state` on `event`.
fn find_transition(ts: &Vec<FSMTransition>, state: &str, event: &str) -> (r: Option<usize>)
    ensures
        r matches Some(i) ==> i < ts@.len() && fsm_match(ts@, state@, event@) == Some(i as int),
        r is None ==> fsm_match(ts@, state@, event@) is None,
{
    let mut i: usize = 0;
    while i < ts.len()
        invariant
            i <= ts@.len(),
            forall|j: int| 0 <= j < i ==> !((#[trigger] ts@[j]).from_state@ == state@ && ts@[j].event@ == event@),
        decreases ts@.len() - i,
    {
        if crate::text::str_eq(ts[i].from_state.as_str(), state) && crate::text::str_eq(ts[i].event.as_str(), event) {
            proof {
                lemma_fsm_match(ts@, state@, event@, i as int);
            }
            return Some(i);
        }
        i = i + 1;
    }
    None
}

/// Calls `HashMap::get_mut`. Claimed (std documentation): a mutable reference
/// to the value under `k` when present, and the map afterwards holds whatever
/// the reference was left holding; `None` and no change when absent.
#[verifier::external_body]
fn behavior_entry(m: &mut HashMap<u64, Behavior>, k: u64) -> (r: Option<&mut Behavior>)
    ensures
        match r {
            Some(b) => old(m)@.contains_key(k) && *b == old(m)@[k] && final(m)@ == old(m)@.insert(k, *final(b)),
            None => !old(m)@.contains_key(k) && final(m)@ == old(m)@,
        },
{
    m.get_mut(&k)
}

/// Whether a configuration carries what its behaviour type needs.
pub open spec fn config_valid(config: BehaviorConfig) -> bool {
    match config.behavior_type {
        None => false,
        Some(BehaviorType::Ticker) => config.tick_interval_ms is Some,
        Some(BehaviorType::Waker) => config.wake_after_ms is Some,
        Some(BehaviorType::Sequential) | Some(BehaviorType::Parallel) => config.sub_behaviors@.len() > 0,
        Some(BehaviorType::FSM) => config.fsm_initial_state is Some,
        _ => true,
    }
}

/// The behaviour that registering `config` at `now` creates.
pub open spec fn registered(id: u64, name: String, config: BehaviorConfig, now: u64) -> Behavior {
    let t = config.behavior_type.unwrap();
    let b = fresh_behavior(id, name, t, config);
    if t == BehaviorType::Waker {
        Behavior { next_run_ms: Some((now + config.wake_after_ms.unwrap()) as u64), ..b }
    } else if t == BehaviorType::Ticker {
        Behavior { next_run_ms: Some(0u64), ..b }
    } else {
        b
    }
}

/// The behaviours after blocking `id` (which is present and not running).
pub open spec fn blocked(m: Map<u64, Behavior>, id: u64) -> Map<u64, Behavior> {
    m.insert(id, Behavior { status: BehaviorStatus::Blocked, ..m[id] })
}

/// The behaviours after restarting `id` (which is present): a blocked
/// behaviour becomes ready, any other is left as it is.
pub open spec fn restarted(m: Map<u64, Behavior>, id: u64) -> Map<u64, Behavior> {
    m.insert(id, if m[id].status == BehaviorStatus::Blocked {
        Behavior { status: BehaviorStatus::Ready, ..m[id] }
    } else {
        m[id]
    })
}

/// Restarting a behaviour that was just blocked makes it ready again and
/// leaves every other behaviour as it was; a ready behaviour comes back
/// exactly as it was.
pub proof fn law_restart_after_block(m: Map<u64, Behavior>, id: u64)
    requires
        m.contains_key(id),
        m[id].status != BehaviorStatus::Running,
    ensures
        restarted(blocked(m, id), id)[id].status == BehaviorStatus::Ready,
        restarted(blocked(m, id), id).dom() == m.dom(),
        forall|k: u64| k != id && #[trigger] m.contains_key(k) ==> restarted(blocked(m, id), id)[k] == m[k],
        m[id].status == BehaviorStatus::Ready ==> restarted(blocked(m, id), id) == m,
{
    let r = restarted(blocked(m, id), id);
    assert(r.dom() =~= m.dom());
    if m[id].status == BehaviorStatus::Ready {
        assert(r[id] == m[id]);
        assert(r =~= m);
    }
}

/// Resetting a behaviour puts an FSM back in its initial state and makes the
/// behaviour ready to run with no runs counted.
pub proof fn law_reset_restores_initial_state(b: Behavior)
    ensures
        reset_spec(b).fsm_current_state == b.config.fsm_initial_state,
        reset_spec(b).status == BehaviorStatus::Ready,
        reset_spec(b).run_count == 0,
        !reset_spec(b).started,
        reset_spec(reset_spec(b)) == reset_spec(b),
{
}

/// A one-shot behaviour runs once: fresh, it is due; after a run it is not.
pub proof fn law_one_shot_runs_once(id: u64, name: String, config: BehaviorConfig, now: u64, later: u64, is_done: bool)
    ensures
        should_run_spec(fresh_behavior(id, name, BehaviorType::OneShot, config), now),
        !should_run_spec(after_run_spec(fresh_behavior(id, name, BehaviorType::OneShot, config), now, is_done), later),
{
}

/// A waker runs once: after a run, whether or not its body reported itself
/// done, it is done and is due at no later time; the run is counted.
pub proof fn law_waker_runs_once(b: Behavior, now: u64, is_done: bool, later: u64)
    requires
        b.behavior_type == BehaviorType::Waker,
    ensures
        after_run_spec(b, now, is_done).status == BehaviorStatus::Done,
        !should_run_spec(after_run_spec(b, now, is_done), later),
        b.run_count < u64::MAX ==> after_run_spec(b, now, is_done).run_count == b.run_count + 1,
        after_run_spec(b, now, is_done).last_run_ms == Some(now),
{
}

/// Once a waker's run is recorded in a scheduler's behaviours, the waker is
/// not among those due at any time.
pub proof fn law_completed_waker_not_runnable(m: Map<u64, Behavior>, id: u64, now: u64, is_done: bool, later: u64)
    requires
        m.contains_key(id),
        m[id].behavior_type == BehaviorType::Waker,
    ensures
        !m.insert(id, after_run_spec(m[id], now, is_done)).dom().filter(
            |k: u64| should_run_spec(m.insert(id, after_run_spec(m[id], now, is_done))[k], later)).contains(id),
{
    law_waker_runs_once(m[id], now, is_done, later);
}

/// A run whose body reports itself done leaves any behaviour done, never due
/// again; a cyclic behaviour that is not done stays ready.
pub proof fn law_done_run_retires(b: Behavior, now: u64, is_done: bool, later: u64)
    ensures
        is_done ==> after_run_spec(b, now, is_done).status == BehaviorStatus::Done,
        is_done ==> !should_run_spec(after_run_spec(b, now, is_done), later),
        !is_done && b.behavior_type == BehaviorType::Cyclic ==> should_run_spec(after_run_spec(b, now, is_done), later),
{
}

/// A ticker that has just run at `now` is not due before `now + interval`
/// and is due from then on.
pub proof fn law_ticker_waits_one_interval(b: Behavior, now: u64, t: u64)
    requires
        b.behavior_type == BehaviorType::Ticker,
        b.config.tick_interval_ms is Some,
        after_run_fits(b, now, false),
    ensures
        should_run_spec(after_run_spec(b, now, false), t) <==> t >= now + b.config.tick_interval_ms.unwrap(),
{
}

/// The registered behaviours of one agent.
pub struct BehaviorScheduler {
    behaviors: HashMap<u64, Behavior>,
    next_id: u64,
    name_to_id: HashMap<String, u64>,
}

impl View for BehaviorScheduler {
    type V = Map<u64, Behavior>;

    closed spec fn view(&self) -> Map<u64, Behavior> {
        self.behaviors@
    }
}

impl BehaviorScheduler {
    /// The id the next registration receives.
    pub closed spec fn next_id_spec(&self) -> u64 {
        self.next_id
    }

    /// Every registered id is below the next id to hand out, which is positive.
    pub closed spec fn wf(&self) -> bool {
        &&& self.next_id >= 1
        &&& forall|k: u64| #[trigger] self.behaviors@.contains_key(k) ==> k < self.next_id
    }

    /// The id that the next registration receives is not in use.
    pub proof fn law_next_id_is_fresh(&self)
        requires
            self.wf(),
        ensures
            !self@.contains_key(self.next_id_spec()),
            self.next_id_spec() >= 1,
    {
    }

    /// Create a new scheduler.
    pub fn new() -> (s: Self)
        ensures
            s.wf(),
            s@ == Map::<u64, Behavior>::empty(),
            s.next_id_spec() == 1,
    {
        BehaviorScheduler { behaviors: HashMap::new(), next_id: 1, name_to_id: HashMap::new() }
    }

    /// Register a behaviour, stamping a waker's first run from the wall clock.
    pub fn add_behavior(&mut self, name: String, config: BehaviorConfig) -> (r: Result<u64, BehaviorError>)
        requires
            old(self).wf(),
            old(self).next_id_spec() < u64::MAX,
        ensures
            final(self).wf(),
            config.behavior_type is None ==> (r matches Err(BehaviorError::InvalidConfig(m))
                && m@ == "behavior_type is required"@),
            config.behavior_type == Some(BehaviorType::Ticker) && config.tick_interval_ms is None
                ==> (r matches Err(BehaviorError::InvalidConfig(m)) && m@ == "tick_interval_ms required for Ticker"@),
            config.behavior_type == Some(BehaviorType::Waker) && config.wake_after_ms is None
                ==> (r matches Err(BehaviorError::InvalidConfig(m)) && m@ == "wake_after_ms required for Waker"@),
            (config.behavior_type == Some(BehaviorType::Sequential) || config.behavior_type == Some(BehaviorType::Parallel))
                && config.sub_behaviors@.len() == 0
                ==> (r matches Err(BehaviorError::InvalidConfig(m)) && m@ == "sub_behaviors required for composite behavior"@),
            config.behavior_type == Some(BehaviorType::FSM) && config.fsm_initial_state is None
                ==> (r matches Err(BehaviorError::InvalidConfig(m)) && m@ == "fsm_initial_state required for FSM"@),
            config_valid(config) && config.behavior_type != Some(BehaviorType::Waker) ==> r is Ok,
            config_valid(config) && r is Err ==> config.behavior_type == Some(BehaviorType::Waker)
                && config.wake_after_ms.unwrap() > 0
                && (r matches Err(BehaviorError::InvalidConfig(m)) && m@ == "wake_after_ms overflows the clock"@),
            r matches Ok(id) ==> id == old(self).next_id_spec() && config_valid(config)
                && final(self).next_id_spec() == id + 1
                && exists|now: u64| final(self)@ == old(self)@.insert(id, #[trigger] registered(id, name, config, now)),
            r is Err ==> final(self)@ == old(self)@ && final(self).next_id_spec() == old(self).next_id_spec(),
    {
        let now = wall_clock_millis() as u64;
        if let (Some(BehaviorType::Waker), Some(delay)) = (config.behavior_type, config.wake_after_ms) {
            if delay > u64::MAX - now {
                return Err(BehaviorError::InvalidConfig(owned("wake_after_ms overflows the clock")));
            }
        }
        self.add_behavior_at(name, config, now)
    }

    /// Register a behaviour; `now_ms` is the current time, from which a waker's
    /// first run is scheduled.
    pub fn add_behavior_at(&mut self, name: String, config: BehaviorConfig, now_ms: u64) -> (r: Result<u64, BehaviorError>)
        requires
            old(self).wf(),
            old(self).next_id_spec() < u64::MAX,
            config.behavior_type == Some(BehaviorType::Waker) && config.wake_after_ms is Some
                ==> now_ms + config.wake_after_ms.unwrap() <= u64::MAX,
        ensures
            final(self).wf(),
            config.behavior_type is None ==> (r matches Err(BehaviorError::InvalidConfig(m))
                && m@ == "behavior_type is required"@),
            config.behavior_type == Some(BehaviorType::Ticker) && config.tick_interval_ms is None
                ==> (r matches Err(BehaviorError::InvalidConfig(m)) && m@ == "tick_interval_ms required for Ticker"@),
            config.behavior_type == Some(BehaviorType::Waker) && config.wake_after_ms is None
                ==> (r matches Err(BehaviorError::InvalidConfig(m)) && m@ == "wake_after_ms required for Waker"@),
            (config.behavior_type == Some(BehaviorType::Sequential) || config.behavior_type == Some(BehaviorType::Parallel))
                && config.sub_behaviors@.len() == 0
                ==> (r matches Err(BehaviorError::InvalidConfig(m)) && m@ == "sub_behaviors required for composite behavior"@),
            config.behavior_type == Some(BehaviorType::FSM) && config.fsm_initial_state is None
                ==> (r matches Err(BehaviorError::InvalidConfig(m)) && m@ == "fsm_initial_state required for FSM"@),
            config_valid(config) ==> r == Ok::<u64, BehaviorError>(old(self).next_id_spec())
                && final(self)@ == old(self)@.insert(old(self).next_id_spec(),
                    registered(old(self).next_id_spec(), name, config, now_ms))
                && final(self).next_id_spec() == old(self).next_id_spec() + 1,
            !config_valid(config) ==> final(self)@ == old(self)@ && final(self).next_id_spec() == old(self).next_id_spec(),
    {
        let behavior_type = match config.behavior_type {
            Some(t) => t,
            None => {
                return Err(BehaviorError::InvalidConfig(owned("behavior_type is required")));
            },
        };
        match behavior_type {
            BehaviorType::Ticker => {
                if config.tick_interval_ms.is_none() {
                    return Err(BehaviorError::InvalidConfig(owned("tick_interval_ms required for Ticker")));
                }
            },
            BehaviorType::Waker => {
                if config.wake_after_ms.is_none() {
                    return Err(BehaviorError::InvalidConfig(owned("wake_after_ms required for Waker")));
                }
            },
            BehaviorType::Sequential | BehaviorType::Parallel => {
                if config.sub_behaviors.len() == 0 {
                    return Err(BehaviorError::InvalidConfig(owned("sub_behaviors required for composite behavior")));
                }
            },
            BehaviorType::FSM => {
                if config.fsm_initial_state.is_none() {
                    return Err(BehaviorError::InvalidConfig(owned("fsm_initial_state required for FSM")));
                }
            },
            _ => {},
        }
        let id = self.next_id;
        self.next_id = self.next_id + 1;
        let name_key = name.clone();
        let mut behavior = Behavior::new(id, name, behavior_type, config);
        match behavior_type {
            BehaviorType::Waker => {
                if let Some(delay) = behavior.config.wake_after_ms {
                    behavior.next_run_ms = Some(now_ms + delay);
                }
            },
            BehaviorType::Ticker => {
                behavior.next_run_ms = Some(0);
            },
            _ => {},
        }
        self.behaviors.insert(id, behavior);
        self.name_to_id.insert(name_key, id);
        Ok(id)
    }

    /// Remove a behaviour.
    pub fn remove_behavior(&mut self, id: u64) -> (r: Result<(), BehaviorError>)
        requires
            old(self).wf(),
        ensures
            final(self).wf(),
            final(self).next_id_spec() == old(self).next_id_spec(),
            old(self)@.contains_key(id) ==> r is Ok && final(self)@ == old(self)@.remove(id),
            !old(self)@.contains_key(id) ==> (r matches Err(BehaviorError::NotFound(x)) && x == id
                && final(self)@ == old(self)@),
    {
        match self.behaviors.remove(&id) {
            Some(behavior) => {
                self.name_to_id.remove(&behavior.name);
                Ok(())
            },
            None => Err(BehaviorError::NotFound(id)),
        }
    }

    /// Block a behaviour that is not running.
    pub fn block_behavior(&mut self, id: u64) -> (r: Result<(), BehaviorError>)
        requires
            old(self).wf(),
        ensures
            final(self).wf(),
            final(self).next_id_spec() == old(self).next_id_spec(),
            !old(self)@.contains_key(id) ==> (r matches Err(BehaviorError::NotFound(x)) && x == id
                && final(self)@ == old(self)@),
            old(self)@.contains_key(id) && old(self)@[id].status == BehaviorStatus::Running
                ==> (r matches Err(BehaviorError::AlreadyRunning) && final(self)@ == old(self)@),
            old(self)@.contains_key(id) && old(self)@[id].status != BehaviorStatus::Running ==> r is Ok
                && final(self)@ == blocked(old(self)@, id),
    {
        match behavior_entry(&mut self.behaviors, id) {
            Some(behavior) => {
                match behavior.status {
                    BehaviorStatus::Running => {
                        return Err(BehaviorError::AlreadyRunning);
                    },
                    _ => {},
                }
                behavior.status = BehaviorStatus::Blocked;
                Ok(())
            },
            None => Err(BehaviorError::NotFound(id)),
        }
    }

    /// Restart a blocked behaviour; other behaviours are left as they are.
    pub fn restart_behavior(&mut self, id: u64) -> (r: Result<(), BehaviorError>)
        requires
            old(self).wf(),
        ensures
            final(self).wf(),
            final(self).next_id_spec() == old(self).next_id_spec(),
            !old(self)@.contains_key(id) ==> (r matches Err(BehaviorError::NotFound(x)) && x == id
                && final(self)@ == old(self)@),
            old(self)@.contains_key(id) ==> r is Ok && final(self)@ == restarted(old(self)@, id),
    {
        match behavior_entry(&mut self.behaviors, id) {
            Some(behavior) => {
                match behavior.status {
                    BehaviorStatus::Blocked => {
                        behavior.status = BehaviorStatus::Ready;
                    },
                    _ => {},
                }
                Ok(())
            },
            None => Err(BehaviorError::NotFound(id)),
        }
    }

    /// A behaviour's status.
    pub fn get_status(&self, id: u64) -> (r: Result<BehaviorStatus, BehaviorError>)
        ensures
            self@.contains_key(id) ==> r == Ok::<BehaviorStatus, BehaviorError>(self@[id].status),
            !self@.contains_key(id) ==> (r matches Err(BehaviorError::NotFound(x)) && x == id),
    {
        match self.behaviors.get(&id) {
            Some(b) => Ok(b.status),
            None => Err(BehaviorError::NotFound(id)),
        }
    }

    /// Mark a behaviour as done (no effect for an unknown id).
    pub fn behavior_done(&mut self, id: u64)
        requires
            old(self).wf(),
        ensures
            final(self).wf(),
            final(self).next_id_spec() == old(self).next_id_spec(),
            old(self)@.contains_key(id) ==> final(self)@ == old(self)@.insert(id,
                Behavior { status: BehaviorStatus::Done, ..old(self)@[id] }),
            !old(self)@.contains_key(id) ==> final(self)@ == old(self)@,
    {
        if let Some(b) = behavior_entry(&mut self.behaviors, id) {
            b.mark_done();
        }
    }

    /// Fire an FSM event: follow the first transition leaving the current
    /// state on `event`, and return the new state.
    pub fn fsm_event(&mut self, id: u64, event: &str) -> (r: Result<String, BehaviorError>)
        requires
            old(self).wf(),
        ensures
            final(self).wf(),
            final(self).next_id_spec() == old(self).next_id_spec(),
            !old(self)@.contains_key(id) ==> (r matches Err(BehaviorError::NotFound(x)) && x == id),
            old(self)@.contains_key(id) && old(self)@[id].behavior_type != BehaviorType::FSM
                ==> (r matches Err(BehaviorError::FSMError(m)) && m@ == "Not an FSM behavior"@),
            old(self)@.contains_key(id) && old(self)@[id].behavior_type == BehaviorType::FSM
                && old(self)@[id].fsm_current_state is None
                ==> (r matches Err(BehaviorError::FSMError(m)) && m@ == "No current state"@),
            old(self)@.contains_key(id) && old(self)@[id].behavior_type == BehaviorType::FSM
                ==> (old(self)@[id].fsm_current_state matches Some(cur) ==> {
                    let b = old(self)@[id];
                    let ts = b.config.fsm_transitions@;
                    match fsm_match(ts, cur@, event@) {
                        Some(i) => r matches Ok(s) && s == ts[i].to_state
                            && final(self)@ == old(self)@.insert(id, Behavior { fsm_current_state: Some(ts[i].to_state), ..b }),
                        None => r matches Err(BehaviorError::FSMError(m))
                            && m@ == "No transition from '"@ + cur@ + "' on event '"@ + event@ + "'"@,
                    }
                }),
            r is Err ==> final(self)@ == old(self)@,
    {
        let behavior = match self.behaviors.get(&id) {
            Some(b) => b,
            None => {
                return Err(BehaviorError::NotFound(id));
            },
        };
        match behavior.behavior_type {
            BehaviorType::FSM => {},
            _ => {
                return Err(BehaviorError::FSMError(owned("Not an FSM behavior")));
            },
        }
        let current = match &behavior.fsm_current_state {
            Some(c) => c,
            None => {
                return Err(BehaviorError::FSMError(owned("No current state")));
            },
        };
        match find_transition(&behavior.config.fsm_transitions, current.as_str(), event) {
            Some(i) => {
                let to = behavior.config.fsm_transitions[i].to_state.clone();
                let stored = to.clone();
                if let Some(bm) = behavior_entry(&mut self.behaviors, id) {
                    bm.fsm_current_state = Some(stored);
                }
                return Ok(to);
            },
            None => {},
        }
        let mut msg = concat("No transition from '", current.as_str());
        msg.append("' on event '");
        msg.append(event);
        msg.append("'");
        Err(BehaviorError::FSMError(msg))
    }

    /// The current FSM state.
    pub fn fsm_current_state(&self, id: u64) -> (r: Result<String, BehaviorError>)
        ensures
            !self@.contains_key(id) ==> (r matches Err(BehaviorError::NotFound(x)) && x == id),
            self@.contains_key(id) ==> (self@[id].fsm_current_state matches Some(s) ==> r == Ok::<String, BehaviorError>(s)),
            self@.contains_key(id) && self@[id].fsm_current_state is None
                ==> (r matches Err(BehaviorError::FSMError(m)) && m@ == "No current state"@),
    {
        match self.behaviors.get(&id) {
            Some(b) => match &b.fsm_current_state {
                Some(s) => Ok(s.clone()),
                None => Err(BehaviorError::FSMError(owned("No current state"))),
            },
            None => Err(BehaviorError::NotFound(id)),
        }
    }

    /// Put a behaviour back in its initial state.
    pub fn reset_behavior(&mut self, id: u64) -> (r: Result<(), BehaviorError>)
        requires
            old(self).wf(),
        ensures
            final(self).wf(),
            final(self).next_id_spec() == old(self).next_id_spec(),
            !old(self)@.contains_key(id) ==> (r matches Err(BehaviorError::NotFound(x)) && x == id
                && final(self)@ == old(self)@),
            old(self)@.contains_key(id) ==> r is Ok && final(self)@ == old(self)@.insert(id, reset_spec(old(self)@[id])),
    {
        match behavior_entry(&mut self.behaviors, id) {
            Some(behavior) => {
                behavior.status = BehaviorStatus::Ready;
                behavior.run_count = 0;
                behavior.started = false;
                behavior.sequential_index = 0;
                behavior.parallel_completed = 0;
                behavior.fsm_current_state = clone_opt_string(&behavior.config.fsm_initial_state);
                Ok(())
            },
            None => Err(BehaviorError::NotFound(id)),
        }
    }

    /// The registered ids, each once, in the map's walk order.
    fn ids(&self) -> (out: Vec<u64>)
        ensures
            out@.no_duplicates(),
            out@.to_set() == self@.dom(),
    {
        let mut out: Vec<u64> = Vec::new();
        let ghost s = vstd::std_specs::hash::spec_keys_iter(&self.behaviors).remaining();
        for k in it: self.behaviors.keys()
            invariant
                it.seq() == s,
                out@ == s.take(it.index() as int).map_values(|r: &u64| *r),
        {
            out.push(*k);
        }
        assert(out@ =~= s.map_values(|r: &u64| *r));
        assert(s.map_values(|r: &u64| *r) =~= s.unref());
        out
    }

    /// Every behaviour as `(id, name, status)`, each once.
    pub fn list_behaviors(&self) -> (r: Vec<(u64, String, BehaviorStatus)>)
        ensures
            exists|ks: Seq<u64>| #![trigger ks.to_set()] ks.no_duplicates() && ks.to_set() == self@.dom()
                && r@.len() == ks.len()
                && forall|j: int| 0 <= j < ks.len() ==> #[trigger] r@[j] == (self@[ks[j]].id, self@[ks[j]].name, self@[ks[j]].status),
    {
        let ids = self.ids();
        let mut out: Vec<(u64, String, BehaviorStatus)> = Vec::new();
        let mut i: usize = 0;
        while i < ids.len()
            invariant
                i <= ids@.len(),
                ids@.to_set() == self@.dom(),
                out@.len() == i,
                forall|j: int| 0 <= j < i ==> #[trigger] out@[j] == (self@[ids@[j]].id, self@[ids@[j]].name, self@[ids@[j]].status),
            decreases ids@.len() - i,
        {
            let k = ids[i];
            assert(ids@.to_set().contains(k));
            match self.behaviors.get(&k) {
                Some(b) => {
                    out.push((b.id, b.name.clone(), b.status));
                },
                None => {
                    assert(false);
                },
            }
            i = i + 1;
        }
        out
    }

    /// The behaviours that should run at `current_ms`, each once.
    pub fn get_runnable(&self, current_ms: u64) -> (r: Vec<&Behavior>)
        ensures
            exists|ks: Seq<u64>| #![trigger ks.to_set()] ks.no_duplicates()
                && ks.to_set() == self@.dom().filter(|k: u64| should_run_spec(self@[k], current_ms))
                && r@.len() == ks.len()
                && forall|j: int| 0 <= j < ks.len() ==> *#[trigger] r@[j] == self@[ks[j]],
    {
        let ids = self.ids();
        let mut out: Vec<&Behavior> = Vec::new();
        let ghost mut ks: Seq<u64> = Seq::empty();
        let mut i: usize = 0;
        while i < ids.len()
            invariant
                i <= ids@.len(),
                ids@.no_duplicates(),
                ids@.to_set() == self@.dom(),
                ks.no_duplicates(),
                ks.to_set() == ids@.take(i as int).to_set().filter(|k: u64| should_run_spec(self@[k], current_ms)),
                out@.len() == ks.len(),
                forall|j: int| 0 <= j < ks.len() ==> *#[trigger] out@[j] == self@[ks[j]],
            decreases ids@.len() - i,
        {
            let k = ids[i];
            assert(ids@.to_set().contains(k));
            let ghost before = ids@.take(i as int);
            assert(ids@.take(i + 1) == before.push(k));
            assert(!before.contains(k)) by {
                if before.contains(k) {
                    let j = choose|j: int| 0 <= j < before.len() && before[j] == k;
                    assert(ids@[j] == ids@[i as int]);
                }
            }
            match self.behaviors.get(&k) {
                Some(b) => {
                    if b.should_run(current_ms) {
                        out.push(b);
                        proof {
                            if ks.contains(k) {
                                assert(ks.to_set().contains(k));
                                assert(before.to_set().contains(k));
                            }
                            ks.lemma_push_to_set_commute(k);
                            ks = ks.push(k);
                        }
                    }
                },
                None => {
                    assert(false);
                },
            }
            proof {
                before.lemma_push_to_set_commute(k);
            }
            proof {
                before.lemma_push_to_set_commute(k);
            }
            assert(ks.to_set() =~= ids@.take(i + 1).to_set().filter(|k: u64| should_run_spec(self@[k], current_ms)));
            i = i + 1;
        }
        assert(ids@.take(ids@.len() as int) == ids@);
        out
    }

    /// The behaviour with this id, if any.
    pub fn get(&self, id: u64) -> (r: Option<&Behavior>)
        ensures
            self@.contains_key(id) ==> (r matches Some(b) && *b == self@[id]),
            !self@.contains_key(id) ==> r is None,
    {
        self.behaviors.get(&id)
    }

    /// The behaviour with this id, for in-place changes.
    pub fn get_mut(&mut self, id: u64) -> (r: Option<&mut Behavior>)
        requires
            old(self).wf(),
        ensures
            final(self).wf(),
            final(self).next_id_spec() == old(self).next_id_spec(),
            match r {
                Some(b) => old(self)@.contains_key(id) && *b == old(self)@[id]
                    && final(self)@ == old(self)@.insert(id, *final(b)),
                None => !old(self)@.contains_key(id) && final(self)@ == old(self)@,
            },
    {
        behavior_entry(&mut self.behaviors, id)
    }

    /// Mark a behaviour as running (no effect for an unknown id).
    pub fn mark_running(&mut self, id: u64)
        requires
            old(self).wf(),
        ensures
            final(self).wf(),
            final(self).next_id_spec() == old(self).next_id_spec(),
            old(self)@.contains_key(id) ==> final(self)@ == old(self)@.insert(id,
                Behavior { status: BehaviorStatus::Running, ..old(self)@[id] }),
            !old(self)@.contains_key(id) ==> final(self)@ == old(self)@,
    {
        if let Some(b) = behavior_entry(&mut self.behaviors, id) {
            b.status = BehaviorStatus::Running;
        }
    }

    /// Record a completed run (no effect for an unknown id).
    pub fn handle_completion(&mut self, id: u64, current_ms: u64, is_done: bool)
        requires
            old(self).wf(),
            old(self)@.contains_key(id) ==> after_run_fits(old(self)@[id], current_ms, is_done),
        ensures
            final(self).wf(),
            final(self).next_id_spec() == old(self).next_id_spec(),
            old(self)@.contains_key(id) ==> final(self)@ == old(self)@.insert(id,
                after_run_spec(old(self)@[id], current_ms, is_done)),
            old(self)@.contains_key(id) && old(self)@[id].behavior_type == BehaviorType::Waker
                ==> final(self)@[id].status == BehaviorStatus::Done,
            !old(self)@.contains_key(id) ==> final(self)@ == old(self)@,
    {
        if let Some(b) = behavior_entry(&mut self.behaviors, id) {
            b.after_run(current_ms, is_done);
        }
    }

    /// Whether the behaviour still needs its start callback.
    pub fn needs_start(&self, id: u64) -> (r: bool)
        ensures
            r == (self@.contains_key(id) && !self@[id].started),
    {
        match self.behaviors.get(&id) {
            Some(b) => !b.started,
            None => false,
        }
    }

    /// Mark the start callback as done (no effect for an unknown id).
    pub fn mark_started(&mut self, id: u64)
        requires
            old(self).wf(),
        ensures
            final(self).wf(),
            final(self).next_id_spec() == old(self).next_id_spec(),
            old(self)@.contains_key(id) ==> final(self)@ == old(self)@.insert(id,
                Behavior { started: true, ..old(self)@[id] }),
            !old(self)@.contains_key(id) ==> final(self)@ == old(self)@,
    {
        if let Some(b) = behavior_entry(&mut self.behaviors, id) {
            b.started = true;
        }
    }
}

} // verus!
