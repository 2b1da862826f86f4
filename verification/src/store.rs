//! The timer collection: the commands it accepts, what each does to the
//! timers, and what each asks of the surrounding program.

use crate::custom_theme::{arc_dark, arc_dark_palette, Theme};
use crate::timer::{fresh_id, is_random_id, lemma_wf_kept, State, Subscription, Timer, TimerView};
use vstd::prelude::*;

verus! {

/// New text for one field of one timer.
#[derive(Debug, Clone, PartialEq, Eq, Hash)]
pub struct Time {
    /// The timer addressed.
    pub id: u128,
    /// The text, taken as it is.
    pub time: String,
}

/// A command to the collection. All but `AddTimer` address one timer.
#[derive(Debug, Clone, PartialEq, Eq)]
pub enum Msg {
    /// Append a new timer.
    AddTimer,
    /// Write this timer's record into the persisted collection.
    SaveTimer(u128),
    /// Remove this timer.
    DeleteTimer(u128),
    /// One second has passed for this timer.
    Tick(u128),
    /// Start counting from what the fields say.
    Start(u128),
    /// Pause.
    Stop(u128),
    /// Stop with nothing left.
    Reset(u128),
    /// The timer has expired: the alarm sound is due.
    PlayNotification(u128),
    /// Overwrite the hours field.
    Hours(Time),
    /// Overwrite the minutes field.
    Minutes(Time),
    /// Overwrite the seconds field.
    Seconds(Time),
    /// Overwrite the name.
    Name(u128, String),
}

/// What a command asks to be written to durable storage.
#[derive(Debug, Clone, Copy, PartialEq, Eq, Structural)]
pub enum Persist {
    /// Nothing.
    Nothing,
    /// The whole collection as it is now.
    All,
    /// The stored collection with the record of this timer replaced.
    One(u128),
}

/// What the surrounding program has to do after a command.
#[derive(Debug, Clone, PartialEq, Eq)]
pub struct Effect {
    /// What to write to durable storage.
    pub persist: Persist,
    /// Whether to show the desktop notification that a timer is done.
    pub notify: bool,
    /// Whether to play the alarm sound.
    pub sound: bool,
    /// The command to hand in next, if any.
    pub next: Option<Msg>,
}

/// Why a command was not carried out.
#[derive(Debug, Clone, Copy, PartialEq, Eq, Structural)]
pub enum StoreError {
    /// The collection holds no timer with the identifier addressed.
    NotFound,
    /// The persisted collection holds no record with the identifier.
    NotPersisted,
}

/// The collection of timers, in display order.
#[derive(Debug, Clone, PartialEq, Eq)]
pub struct Oxyclock {
    /// The timers, oldest first.
    pub timers: Vec<Timer>,
}

/// The timers of a vector as mathematical values.
pub open spec fn views(timers: Seq<Timer>) -> Seq<TimerView> {
    timers.map_values(|t: Timer| t@)
}

impl View for Oxyclock {
    type V = Seq<TimerView>;

    open spec fn view(&self) -> Seq<TimerView> {
        views(self.timers@)
    }
}

/// Whether every timer of the collection is well formed.
pub open spec fn all_wf(timers: Seq<TimerView>) -> bool {
    forall|i: int| 0 <= i < timers.len() ==> (#[trigger] timers[i]).wf()
}

/// Whether `i` is the place of the first timer with the identifier `id`.
pub open spec fn is_first(timers: Seq<TimerView>, id: u128, i: int) -> bool {
    &&& 0 <= i < timers.len()
    &&& timers[i].id == id
    &&& forall|j: int| 0 <= j < i ==> (#[trigger] timers[j]).id != id
}

/// The place of the timer that a command with the identifier `id` addresses:
/// the first one with that identifier, if there is any.
pub open spec fn position(timers: Seq<TimerView>, id: u128) -> Option<int> {
    if exists|i: int| is_first(timers, id, i) {
        Some(choose|i: int| is_first(timers, id, i))
    } else {
        None
    }
}

/// The first timer with an identifier is the only first one, and there is one
/// as soon as any timer has the identifier.
pub proof fn lemma_position(timers: Seq<TimerView>, id: u128)
    ensures
        match position(timers, id) {
            Some(i) => is_first(timers, id, i),
            None => forall|j: int| 0 <= j < timers.len() ==> (#[trigger] timers[j]).id != id,
        },
        forall|i: int| is_first(timers, id, i) ==> position(timers, id) == Some(i),
{
    if exists|i: int| is_first(timers, id, i) {
        let c = choose|i: int| is_first(timers, id, i);
        assert forall|i: int| is_first(timers, id, i) implies i == c by {
            if i < c {
                assert(timers[i].id != id);
            } else if c < i {
                assert(timers[c].id != id);
            }
        }
    } else {
        assert forall|j: int| 0 <= j < timers.len() implies (#[trigger] timers[j]).id != id by {
            lemma_no_first(timers, id, j);
        }
    }
}

/// Where no timer is the first with `id`, no timer up to `j` has it.
proof fn lemma_no_first(timers: Seq<TimerView>, id: u128, j: int)
    requires
        0 <= j < timers.len(),
        !exists|i: int| is_first(timers, id, i),
    ensures
        timers[j].id != id,
    decreases j,
{
    if timers[j].id == id {
        assert forall|k: int| 0 <= k < j implies (#[trigger] timers[k]).id != id by {
            lemma_no_first(timers, id, k);
        }
        assert(is_first(timers, id, j));
    }
}

/// The identifier that a command addresses.
pub open spec fn target(msg: Msg) -> Option<u128> {
    match msg {
        Msg::AddTimer => None,
        Msg::SaveTimer(id) => Some(id),
        Msg::DeleteTimer(id) => Some(id),
        Msg::Tick(id) => Some(id),
        Msg::Start(id) => Some(id),
        Msg::Stop(id) => Some(id),
        Msg::Reset(id) => Some(id),
        Msg::PlayNotification(id) => Some(id),
        Msg::Hours(t) => Some(t.id),
        Msg::Minutes(t) => Some(t.id),
        Msg::Seconds(t) => Some(t.id),
        Msg::Name(id, _) => Some(id),
    }
}

/// What a command does to the timer it addresses. An edit overwrites the
/// field with the text as given, in every state.
pub open spec fn advance(t: TimerView, msg: Msg) -> TimerView {
    match msg {
        Msg::Tick(_) => t.ticked(),
        Msg::Start(_) => t.started(),
        Msg::Stop(_) => t.stopped(),
        Msg::Reset(_) => t.reset(),
        Msg::PlayNotification(_) => t.notifying(),
        Msg::Hours(time) => TimerView { hours: time.time@, ..t },
        Msg::Minutes(time) => TimerView { minutes: time.time@, ..t },
        Msg::Seconds(time) => TimerView { seconds: time.time@, ..t },
        Msg::Name(_, name) => TimerView { name: name@, ..t },
        _ => t,
    }
}

/// An effect that asks for nothing.
pub open spec fn quiet() -> Effect {
    Effect { persist: Persist::Nothing, notify: false, sound: false, next: None }
}

/// What a command that found its timer `t` asks of the surrounding program.
///
/// Adding, deleting and renaming ask for a write of the whole collection,
/// saving for a merge of one record. A tick that finds the timer expiring asks
/// for the desktop notification and hands on to `PlayNotification`, which asks
/// for the alarm sound and hands on to `Stop`.
pub open spec fn effect_on(t: TimerView, msg: Msg) -> Effect {
    match msg {
        Msg::AddTimer => Effect { persist: Persist::All, ..quiet() },
        Msg::SaveTimer(id) => Effect { persist: Persist::One(id), ..quiet() },
        Msg::DeleteTimer(_) => Effect { persist: Persist::All, ..quiet() },
        Msg::Name(_, _) => Effect { persist: Persist::All, ..quiet() },
        Msg::Tick(id) => if t.expires() {
            Effect { notify: true, next: Some(Msg::PlayNotification(id)), ..quiet() }
        } else {
            quiet()
        },
        Msg::PlayNotification(id) => Effect { sound: true, next: Some(Msg::Stop(id)), ..quiet() },
        _ => quiet(),
    }
}

/// The timers after a command. `fresh` is the identifier that a new timer
/// gets; only `AddTimer` looks at it. A command that addresses an identifier
/// that no timer has changes nothing.
pub open spec fn next_timers(timers: Seq<TimerView>, msg: Msg, fresh: u128) -> Seq<TimerView> {
    match target(msg) {
        None => timers.push(TimerView::fresh(fresh)),
        Some(id) => match position(timers, id) {
            None => timers,
            Some(i) => if msg is DeleteTimer {
                timers.remove(i)
            } else {
                timers.update(i, advance(timers[i], msg))
            },
        },
    }
}

/// What a command returns: `NotFound` exactly when it addresses an identifier
/// that no timer has, else what it asks of the surrounding program.
pub open spec fn outcome(timers: Seq<TimerView>, msg: Msg) -> Result<Effect, StoreError> {
    match target(msg) {
        None => Ok(effect_on(TimerView::fresh(0), msg)),
        Some(id) => match position(timers, id) {
            None => Err(StoreError::NotFound),
            Some(i) => Ok(effect_on(timers[i], msg)),
        },
    }
}

/// How many commands can still follow a command: a tick can hand on to
/// `PlayNotification`, which hands on to `Stop`.
pub open spec fn rank(msg: Msg) -> nat {
    match msg {
        Msg::Tick(_) => 2,
        Msg::PlayNotification(_) => 1,
        _ => 0,
    }
}

/// The timers after a command and every command that it hands on to.
pub open spec fn settled(timers: Seq<TimerView>, msg: Msg, fresh: u128) -> Seq<TimerView>
    decreases rank(msg),
{
    let after = next_timers(timers, msg, fresh);
    match outcome(timers, msg) {
        Ok(effect) => match effect.next {
            Some(next) => settled(after, next, fresh),
            None => after,
        },
        Err(_) => after,
    }
}

/// What a command and every command that it hands on to ask of the
/// surrounding program, in order. Empty where the command finds no timer.
pub open spec fn effects(timers: Seq<TimerView>, msg: Msg, fresh: u128) -> Seq<Effect>
    decreases rank(msg),
{
    match outcome(timers, msg) {
        Ok(effect) => match effect.next {
            Some(next) => seq![effect] + effects(next_timers(timers, msg, fresh), next, fresh),
            None => seq![effect],
        },
        Err(_) => Seq::empty(),
    }
}

/// The persisted collection with the record of the timer `id` replaced by the
/// timer as the collection `memory` holds it. Every other record stays as it
/// is and where it is.
pub open spec fn merged(memory: Seq<TimerView>, persisted: Seq<TimerView>, id: u128) -> Result<
    Seq<TimerView>,
    StoreError,
> {
    match position(memory, id) {
        None => Err(StoreError::NotFound),
        Some(i) => match position(persisted, id) {
            None => Err(StoreError::NotPersisted),
            Some(j) => Ok(persisted.update(j, memory[i])),
        },
    }
}

/// What the scheduler owes each timer, in display order.
pub open spec fn owed(timers: Seq<TimerView>) -> Seq<Subscription> {
    timers.map_values(|t: TimerView| t.owed())
}

/// A command that rewrites the timer it addresses leaves it where it was,
/// under the identifier it had.
pub proof fn lemma_target_stays(timers: Seq<TimerView>, msg: Msg, fresh: u128)
    requires
        target(msg) matches Some(id) && position(timers, id) is Some,
        msg !is DeleteTimer,
    ensures
        position(next_timers(timers, msg, fresh), target(msg)->0) == position(
            timers,
            target(msg)->0,
        ),
        next_timers(timers, msg, fresh).len() == timers.len(),
{
    let id = target(msg)->0;
    lemma_position(timers, id);
    let i = position(timers, id)->0;
    let after = next_timers(timers, msg, fresh);
    assert(after[i].id == id);
    assert forall|j: int| 0 <= j < i implies (#[trigger] after[j]).id != id by {
        assert(after[j] == timers[j]);
    }
    assert(is_first(after, id, i));
    lemma_position(after, id);
}

/// A command that found its timer hands on, if at all, to a command of lower
/// rank for the same timer, which will find it too.
pub proof fn lemma_hands_on(timers: Seq<TimerView>, msg: Msg, fresh: u128)
    requires
        outcome(timers, msg) matches Ok(effect) && effect.next is Some,
    ensures
        ({
            let next = outcome(timers, msg)->Ok_0.next->0;
            &&& rank(next) < rank(msg)
            &&& outcome(next_timers(timers, msg, fresh), next) is Ok
        }),
{
    lemma_target_stays(timers, msg, fresh);
}

/// The tick that finds a running timer with a second or less left, followed
/// to its end: the timer is stopped with nothing left and `"00"` fields, the
/// desktop notification and the alarm sound were each asked for once, and
/// nothing was asked to be written.
pub proof fn lemma_expiry(timers: Seq<TimerView>, id: u128, fresh: u128)
    requires
        position(timers, id) matches Some(i) && timers[i].expires(),
    ensures
        ({
            let i = position(timers, id)->0;
            &&& settled(timers, Msg::Tick(id), fresh) == timers.update(
                i,
                TimerView { state: State::Stopped, time: 0, ..timers[i] }.refreshed(),
            )
            &&& effects(timers, Msg::Tick(id), fresh) == seq![
                Effect { notify: true, next: Some(Msg::PlayNotification(id)), ..quiet() },
                Effect { sound: true, next: Some(Msg::Stop(id)), ..quiet() },
                quiet(),
            ]
        }),
{
    let i = position(timers, id)->0;
    let tick = Msg::Tick(id);
    let play = Msg::PlayNotification(id);
    let stop = Msg::Stop(id);
    let t1 = next_timers(timers, tick, fresh);
    lemma_target_stays(timers, tick, fresh);
    let t2 = next_timers(t1, play, fresh);
    lemma_target_stays(t1, play, fresh);
    let t3 = next_timers(t2, stop, fresh);
    assert(settled(t2, stop, fresh) == t3);
    assert(settled(t1, play, fresh) == t3);
    assert(settled(timers, tick, fresh) == t3);
    assert(t3 =~= timers.update(
        i,
        TimerView { state: State::Stopped, time: 0, ..timers[i] }.refreshed(),
    ));
    assert(effects(t2, stop, fresh) =~= seq![quiet()]);
    assert(effects(t1, play, fresh) =~= seq![
        Effect { sound: true, next: Some(Msg::Stop(id)), ..quiet() },
        quiet(),
    ]);
    assert(effects(timers, tick, fresh) =~= seq![
        Effect { notify: true, next: Some(Msg::PlayNotification(id)), ..quiet() },
        Effect { sound: true, next: Some(Msg::Stop(id)), ..quiet() },
        quiet(),
    ]);
}

/// Every command but an expiring tick and `PlayNotification` is done in one
/// step: it hands on to nothing.
pub proof fn lemma_single_step(timers: Seq<TimerView>, msg: Msg, fresh: u128)
    requires
        msg !is PlayNotification,
        msg matches Msg::Tick(id) ==> !(position(timers, id) matches Some(i)
            && timers[i].expires()),
    ensures
        settled(timers, msg, fresh) == next_timers(timers, msg, fresh),
        effects(timers, msg, fresh) == match outcome(timers, msg) {
            Ok(effect) => seq![effect],
            Err(_) => Seq::empty(),
        },
{
}

/// Whether no two timers share an identifier.
pub open spec fn distinct_ids(timers: Seq<TimerView>) -> bool {
    forall|i: int, j: int|
        0 <= i < j < timers.len() ==> (#[trigger] timers[i]).id != (#[trigger] timers[j]).id
}

/// Timers with distinct identifiers keep distinct identifiers under every
/// command, as long as a new timer gets an identifier that none of them has.
pub proof fn lemma_distinct_kept(timers: Seq<TimerView>, msg: Msg, fresh: u128)
    requires
        distinct_ids(timers),
        msg is AddTimer ==> position(timers, fresh) is None,
    ensures
        distinct_ids(next_timers(timers, msg, fresh)),
{
    let after = next_timers(timers, msg, fresh);
    match target(msg) {
        None => {
            lemma_position(timers, fresh);
        },
        Some(id) => {
            lemma_position(timers, id);
            match position(timers, id) {
                None => {},
                Some(p) => {
                    if msg is DeleteTimer {
                        assert forall|i: int, j: int| 0 <= i < j < after.len() implies (
                        #[trigger] after[i]).id != (#[trigger] after[j]).id by {
                            let a = if i < p { i } else { i + 1 };
                            let b = if j < p { j } else { j + 1 };
                            assert(after[i] == timers[a] && after[j] == timers[b]);
                        }
                    } else {
                        assert forall|i: int, j: int| 0 <= i < j < after.len() implies (
                        #[trigger] after[i]).id != (#[trigger] after[j]).id by {
                            assert(after[i].id == timers[i].id && after[j].id == timers[j].id);
                        }
                    }
                },
            }
        },
    }
}

/// Among timers with distinct identifiers, deleting one leaves none with its
/// identifier, and leaves every other timer as it was, in the order it had.
pub proof fn lemma_delete_forgets(timers: Seq<TimerView>, id: u128, fresh: u128)
    requires
        distinct_ids(timers),
        position(timers, id) is Some,
    ensures
        ({
            let after = next_timers(timers, Msg::DeleteTimer(id), fresh);
            let p = position(timers, id)->0;
            &&& position(after, id) is None
            &&& after.len() == timers.len() - 1
            &&& forall|i: int| 0 <= i < p ==> after[i] == timers[i]
            &&& forall|i: int| p <= i < after.len() ==> after[i] == timers[i + 1]
        }),
{
    let after = next_timers(timers, Msg::DeleteTimer(id), fresh);
    lemma_position(timers, id);
    let p = position(timers, id)->0;
    assert forall|i: int| 0 <= i < after.len() implies (#[trigger] after[i]).id != id by {
        let a = if i < p { i } else { i + 1 };
        assert(after[i] == timers[a]);
        if a < p {
            assert(timers[a].id != timers[p].id);
        } else {
            assert(timers[p].id != timers[a].id);
        }
    }
    lemma_position(after, id);
}

/// Only `AddTimer` looks at the identifier for a new timer.
pub proof fn lemma_fresh_unused(timers: Seq<TimerView>, msg: Msg, fresh: u128)
    requires
        msg !is AddTimer,
    ensures
        next_timers(timers, msg, fresh) == next_timers(timers, msg, 0),
        settled(timers, msg, fresh) == settled(timers, msg, 0),
        effects(timers, msg, fresh) == effects(timers, msg, 0),
    decreases rank(msg),
{
    match outcome(timers, msg) {
        Ok(effect) => match effect.next {
            Some(next) => {
                lemma_fresh_unused(next_timers(timers, msg, fresh), next, fresh);
            },
            None => {},
        },
        Err(_) => {},
    }
}

/// Rewriting one timer of a vector rewrites its view at the same place.
proof fn lemma_views_update(before: Seq<Timer>, after: Seq<Timer>, i: int, t: Timer)
    requires
        0 <= i < before.len(),
        after == before.update(i, t),
    ensures
        views(after) == views(before).update(i, t@),
{
    assert(views(after) =~= views(before).update(i, t@));
}

/// No command makes a well-formed timer ill formed.
pub proof fn lemma_advance_wf(t: TimerView, msg: Msg)
    requires
        t.wf(),
    ensures
        advance(t, msg).wf(),
{
    lemma_wf_kept(t);
}

/// No command makes a collection of well-formed timers hold an ill-formed one.
pub proof fn lemma_next_timers_wf(timers: Seq<TimerView>, msg: Msg, fresh: u128)
    requires
        all_wf(timers),
    ensures
        all_wf(next_timers(timers, msg, fresh)),
{
    lemma_position(timers, target(msg).unwrap_or(0));
    match target(msg) {
        None => {},
        Some(id) => match position(timers, id) {
            None => {},
            Some(i) => {
                lemma_advance_wf(timers[i], msg);
            },
        },
    }
}

/// The place of the first timer of `timers` with the identifier `id`.
pub fn find_in(timers: &Vec<Timer>, id: u128) -> (r: Option<usize>)
    ensures
        match r {
            Some(i) => position(views(timers@), id) == Some(i as int),
            None => position(views(timers@), id) is None,
        },
{
    let ghost all = views(timers@);
    let mut i: usize = 0;
    while i < timers.len()
        invariant
            i <= timers.len(),
            all == views(timers@),
            forall|j: int| 0 <= j < i ==> (#[trigger] all[j]).id != id,
        decreases timers.len() - i,
    {
        if timers[i].id == id {
            proof {
                assert(all[i as int].id == id);
                assert(is_first(all, id, i as int));
                lemma_position(all, id);
            }
            return Some(i);
        }
        i = i + 1;
    }
    proof {
        lemma_position(all, id);
    }
    None
}

/// The command that an effect hands on to, apart from the effect.
fn handed_on(effect: &Effect) -> (r: Option<Msg>)
    requires
        effect.next matches Some(next) ==> next is PlayNotification || next is Stop,
    ensures
        r == effect.next,
{
    match &effect.next {
        Some(Msg::PlayNotification(id)) => Some(Msg::PlayNotification(*id)),
        Some(Msg::Stop(id)) => Some(Msg::Stop(*id)),
        _ => None,
    }
}

impl Oxyclock {
    /// Whether every timer keeps within 64 bits while it runs.
    pub open spec fn wf(&self) -> bool {
        all_wf(self@)
    }

    /// Whether every timer keeps within 64 bits while it runs.
    pub fn is_wf(&self) -> (r: bool)
        ensures
            r == self.wf(),
    {
        let mut i: usize = 0;
        while i < self.timers.len()
            invariant
                i <= self.timers.len(),
                forall|j: int| 0 <= j < i ==> (#[trigger] self@[j]).wf(),
            decreases self.timers.len() - i,
        {
            if !self.timers[i].is_wf() {
                assert(!self@[i as int].wf());
                return false;
            }
            i = i + 1;
        }
        true
    }

    /// The place of the first timer with the identifier `id`.
    pub fn find(&self, id: u128) -> (r: Option<usize>)
        ensures
            match r {
                Some(i) => position(self@, id) == Some(i as int),
                None => position(self@, id) is None,
            },
    {
        find_in(&self.timers, id)
    }

    /// Carries out one command, with `fresh` as the identifier of the timer
    /// that `AddTimer` appends.
    ///
    /// The timers change as `next_timers` says. A command that addresses an
    /// identifier that no timer has returns `NotFound` and changes nothing;
    /// every other command returns what it asks of the surrounding program.
    pub fn apply(&mut self, msg: Msg, fresh: u128) -> (r: Result<Effect, StoreError>)
        requires
            old(self).wf(),
        ensures
            final(self)@ == next_timers(old(self)@, msg, fresh),
            r == outcome(old(self)@, msg),
            final(self).wf(),
    {
        proof {
            lemma_next_timers_wf(self@, msg, fresh);
        }
        let ghost before = self.timers@;
        let quiet = Effect { persist: Persist::Nothing, notify: false, sound: false, next: None };
        let id = match &msg {
            Msg::AddTimer => {
                self.timers.push(Timer::new(fresh));
                assert(self@ =~= old(self)@.push(TimerView::fresh(fresh)));
                return Ok(Effect { persist: Persist::All, ..quiet });
            },
            Msg::SaveTimer(id) => *id,
            Msg::DeleteTimer(id) => *id,
            Msg::Tick(id) => *id,
            Msg::Start(id) => *id,
            Msg::Stop(id) => *id,
            Msg::Reset(id) => *id,
            Msg::PlayNotification(id) => *id,
            Msg::Hours(time) => time.id,
            Msg::Minutes(time) => time.id,
            Msg::Seconds(time) => time.id,
            Msg::Name(id, _) => *id,
        };
        let i = match self.find(id) {
            Some(i) => i,
            None => {
                return Err(StoreError::NotFound);
            },
        };
        proof {
            lemma_position(self@, id);
            assert(self@[i as int] == before[i as int]@);
        }
        if let Msg::DeleteTimer(_) = msg {
            self.timers.remove(i);
            assert(self@ =~= old(self)@.remove(i as int));
            return Ok(Effect { persist: Persist::All, ..quiet });
        }
        let timer = &mut self.timers[i];
        let effect = match msg {
            Msg::SaveTimer(id) => Effect { persist: Persist::One(id), ..quiet },
            Msg::Tick(id) => {
                if timer.tick() {
                    Effect { notify: true, next: Some(Msg::PlayNotification(id)), ..quiet }
                } else {
                    quiet
                }
            },
            Msg::Start(_) => {
                timer.start();
                quiet
            },
            Msg::Stop(_) => {
                timer.stop();
                quiet
            },
            Msg::Reset(_) => {
                timer.reset();
                quiet
            },
            Msg::PlayNotification(id) => {
                timer.notify();
                Effect { sound: true, next: Some(Msg::Stop(id)), ..quiet }
            },
            Msg::Hours(time) => {
                timer.hours = time.time;
                quiet
            },
            Msg::Minutes(time) => {
                timer.minutes = time.time;
                quiet
            },
            Msg::Seconds(time) => {
                timer.seconds = time.time;
                quiet
            },
            Msg::Name(_, name) => {
                timer.name = name;
                Effect { persist: Persist::All, ..quiet }
            },
            _ => quiet,
        };
        proof {
            lemma_views_update(before, self.timers@, i as int, self.timers@[i as int]);
        }
        Ok(effect)
    }

    /// Carries out one command. A new timer gets a randomly drawn identifier.
    ///
    /// Like `apply`, which says what happens for each identifier that can be
    /// drawn; for every command but `AddTimer` that identifier plays no part.
    pub fn update(&mut self, msg: Msg) -> (r: Result<Effect, StoreError>)
        requires
            old(self).wf(),
        ensures
            msg !is AddTimer ==> final(self)@ == next_timers(old(self)@, msg, 0),
            msg is AddTimer ==> exists|fresh: u128|
                is_random_id(fresh) && final(self)@ == old(self)@.push(
                    #[trigger] TimerView::fresh(fresh),
                ),
            r == outcome(old(self)@, msg),
            final(self).wf(),
    {
        let fresh = match msg {
            Msg::AddTimer => fresh_id(),
            _ => 0,
        };
        self.apply(msg, fresh)
    }

    /// Carries out one command and every command that it hands on to, up to
    /// the one that hands on to nothing: the logical step. A new timer gets a
    /// randomly drawn identifier.
    ///
    /// Returns what each of these commands asks of the surrounding program,
    /// in order, or `NotFound` where `msg` addresses an identifier that no
    /// timer has; then nothing changes.
    pub fn dispatch(&mut self, msg: Msg) -> (r: Result<Vec<Effect>, StoreError>)
        requires
            old(self).wf(),
        ensures
            msg !is AddTimer ==> final(self)@ == settled(old(self)@, msg, 0),
            msg is AddTimer ==> exists|fresh: u128|
                is_random_id(fresh) && final(self)@ == old(self)@.push(
                    #[trigger] TimerView::fresh(fresh),
                ),
            match outcome(old(self)@, msg) {
                Ok(_) => r matches Ok(v) && v@ == effects(old(self)@, msg, 0),
                Err(e) => r == Err::<Vec<Effect>, StoreError>(e),
            },
            final(self).wf(),
    {
        let ghost start = self@;
        let fresh = match msg {
            Msg::AddTimer => fresh_id(),
            _ => 0,
        };
        let first = match self.apply(msg, fresh) {
            Ok(effect) => effect,
            Err(e) => {
                return Err(e);
            },
        };
        let mut out: Vec<Effect> = Vec::new();
        let mut next = handed_on(&first);
        proof {
            if next is Some {
                lemma_hands_on(start, msg, fresh);
            }
            assert(effects(start, msg, fresh) =~= seq![first] + match next {
                Some(m) => effects(self@, m, fresh),
                None => Seq::empty(),
            });
        }
        out.push(first);
        while next.is_some()
            invariant
                self.wf(),
                next matches Some(m) ==> outcome(self@, m) is Ok,
                settled(start, msg, fresh) == match next {
                    Some(m) => settled(self@, m, fresh),
                    None => self@,
                },
                effects(start, msg, fresh) == out@ + match next {
                    Some(m) => effects(self@, m, fresh),
                    None => Seq::empty(),
                },
            decreases
                match next {
                    Some(m) => rank(m) + 1,
                    None => 0,
                },
        {
            let ghost before = self@;
            let ghost done = out@;
            let m = next.unwrap();
            let effect = match self.apply(m, fresh) {
                Ok(effect) => effect,
                Err(e) => {
                    // Not reached: a command that was handed on finds its timer.
                    assert(false);
                    return Err(e);
                },
            };
            next = handed_on(&effect);
            proof {
                if next is Some {
                    lemma_hands_on(before, m, fresh);
                }
                assert(effects(before, m, fresh) =~= seq![effect] + match next {
                    Some(n) => effects(self@, n, fresh),
                    None => Seq::empty(),
                });
                assert(done.push(effect) + match next {
                    Some(n) => effects(self@, n, fresh),
                    None => Seq::empty(),
                } =~= done + effects(before, m, fresh));
            }
            out.push(effect);
        }
        proof {
            assert(out@ + Seq::<Effect>::empty() =~= out@);
            if msg !is AddTimer {
                lemma_fresh_unused(start, msg, fresh);
            }
        }
        Ok(out)
    }

    /// What the scheduler owes each timer, in display order: one tick per
    /// second for each running timer, addressed to it, and nothing for the
    /// others.
    pub fn subscription(&self) -> (r: Vec<Subscription>)
        ensures
            r@ == owed(self@),
    {
        let mut out: Vec<Subscription> = Vec::new();
        let mut i: usize = 0;
        while i < self.timers.len()
            invariant
                i <= self.timers.len(),
                out@ == owed(self@).take(i as int),
            decreases self.timers.len() - i,
        {
            out.push(self.timers[i].subscription());
            assert(out@ =~= owed(self@).take(i + 1));
            i = i + 1;
        }
        assert(out@ =~= owed(self@));
        out
    }

    /// The theme of the interface: the dark one, whatever the timers are.
    pub fn theme(&self) -> (r: Theme)
        ensures
            r.name@ == "Arc-Dark"@,
            r.palette == arc_dark_palette(),
    {
        arc_dark()
    }

    /// The collection to write back when the timer `id` alone is saved: the
    /// persisted collection, read just before, with the record of `id`
    /// replaced by the timer as this collection holds it.
    ///
    /// `NotFound` where this collection holds no timer `id`; else
    /// `NotPersisted` where the persisted one holds no record of it.
    pub fn merge_one(&self, persisted: Vec<Timer>, id: u128) -> (r: Result<Vec<Timer>, StoreError>)
        ensures
            match merged(self@, views(persisted@), id) {
                Ok(m) => r matches Ok(v) && views(v@) == m,
                Err(e) => r == Err::<Vec<Timer>, StoreError>(e),
            },
    {
        let i = match self.find(id) {
            Some(i) => i,
            None => {
                return Err(StoreError::NotFound);
            },
        };
        let j = match find_in(&persisted, id) {
            Some(j) => j,
            None => {
                return Err(StoreError::NotPersisted);
            },
        };
        proof {
            lemma_position(self@, id);
            lemma_position(views(persisted@), id);
        }
        let mut out = persisted;
        let ghost before = out@;
        out.set(j, self.timers[i].duplicate());
        proof {
            lemma_views_update(before, out@, j as int, self.timers@[i as int]);
        }
        Ok(out)
    }
}

impl Default for Oxyclock {
    /// A collection of one new timer under a randomly drawn identifier.
    fn default() -> (r: Oxyclock)
        ensures
            r@.len() == 1,
            r@[0] == TimerView::fresh(r@[0].id),
            is_random_id(r@[0].id),
            r.wf(),
    {
        let mut timers: Vec<Timer> = Vec::new();
        timers.push(Timer::default());
        Oxyclock { timers }
    }
}

} // verus!
