//! One countdown: its data, its view, and the transitions of its state machine.

use crate::duration::{format_spec, parse, parse_spec, ParseError};
use vstd::prelude::*;

verus! {

/// Where a timer is in its life.
#[derive(Debug, Clone, Copy, PartialEq, Eq, Hash, Structural)]
pub enum State {
    /// Counting down: one tick is owed per second.
    Running,
    /// Expired, alarm requested, about to stop.
    NotificationSound,
    /// Idle: the fields can be edited.
    Stopped,
}

/// What the scheduler owes a timer in its present state.
#[derive(Debug, Clone, Copy, PartialEq, Eq, Structural)]
pub enum Subscription {
    /// Nothing.
    Nothing,
    /// One tick per second, addressed to the timer with this identifier.
    EverySecond(u128),
}

/// One countdown timer. Durations are whole seconds.
#[derive(Debug, Clone, PartialEq, Eq, Hash)]
pub struct Timer {
    /// The handle by which every command addresses the timer.
    pub id: u128,
    /// The label that the user gave.
    pub name: String,
    /// Seconds left to count.
    pub time: u64,
    /// Seconds counted since the last start.
    pub elapsed: u64,
    /// The state of the state machine.
    pub state: State,
    /// The hours field as the user sees and edits it.
    pub hours: String,
    /// The minutes field.
    pub minutes: String,
    /// The seconds field.
    pub seconds: String,
}

/// A timer as a mathematical value.
pub struct TimerView {
    pub id: u128,
    pub name: Seq<char>,
    pub time: nat,
    pub elapsed: nat,
    pub state: State,
    pub hours: Seq<char>,
    pub minutes: Seq<char>,
    pub seconds: Seq<char>,
}

impl View for Timer {
    type V = TimerView;

    open spec fn view(&self) -> TimerView {
        TimerView {
            id: self.id,
            name: self.name@,
            time: self.time as nat,
            elapsed: self.elapsed as nat,
            state: self.state,
            hours: self.hours@,
            minutes: self.minutes@,
            seconds: self.seconds@,
        }
    }
}

/// Whether `id` carries the marks of a randomly drawn identifier: version 4
/// in bits 76 to 79, variant `10` in bits 62 and 63.
pub open spec fn is_random_id(id: u128) -> bool {
    id & 0xF000_C000_0000_0000_0000u128 == 0x4000_8000_0000_0000_0000u128
}

impl TimerView {
    /// A new timer: stopped, nothing to count, no name, every field `"00"`.
    pub open spec fn fresh(id: u128) -> TimerView {
        TimerView {
            id,
            name: Seq::empty(),
            time: 0,
            elapsed: 0,
            state: State::Stopped,
            hours: seq!['0', '0'],
            minutes: seq!['0', '0'],
            seconds: seq!['0', '0'],
        }
    }

    /// While a timer runs, what is left and what was counted add up to no more
    /// than the duration it was started with, which fits 64 bits.
    pub open spec fn wf(self) -> bool {
        &&& self.time <= u64::MAX
        &&& self.elapsed <= u64::MAX
        &&& self.state == State::Running ==> self.time + self.elapsed <= u64::MAX
    }

    /// The timer with its three fields rewritten from the time left.
    pub open spec fn refreshed(self) -> TimerView {
        let (hours, minutes, seconds) = format_spec(self.time);
        TimerView { hours, minutes, seconds, ..self }
    }

    /// The duration that the three fields give.
    pub open spec fn duration(self) -> Result<u64, ParseError> {
        parse_spec(self.hours, self.minutes, self.seconds)
    }

    /// Start: with fields that give a duration, the timer runs from that
    /// duration with nothing counted; with other fields nothing changes.
    pub open spec fn started(self) -> TimerView {
        match self.duration() {
            Ok(d) => TimerView { state: State::Running, time: d as nat, elapsed: 0, ..self },
            Err(_) => self,
        }
    }

    /// Stop: a pause. The time left stays and is written into the fields.
    pub open spec fn stopped(self) -> TimerView {
        TimerView { state: State::Stopped, ..self }.refreshed()
    }

    /// Reset: stopped, nothing left, fields rewritten.
    pub open spec fn reset(self) -> TimerView {
        TimerView { state: State::Stopped, time: 0, ..self }.refreshed()
    }

    /// The expired timer enters the state that it holds while the alarm is
    /// requested.
    pub open spec fn notifying(self) -> TimerView {
        TimerView { state: State::NotificationSound, ..self }
    }

    /// Whether a tick finds the timer running with at most one second left.
    pub open spec fn expires(self) -> bool {
        self.state == State::Running && self.time <= 1
    }

    /// Tick: a running timer with more than a second left counts one second;
    /// one with a second or less left is set to zero and its fields are
    /// rewritten; a timer that does not run is left alone.
    pub open spec fn ticked(self) -> TimerView {
        if self.state != State::Running {
            self
        } else if self.time <= 1 {
            TimerView { time: 0, ..self }.refreshed()
        } else {
            TimerView { time: (self.time - 1) as nat, elapsed: self.elapsed + 1, ..self }
        }
    }

    /// What the scheduler owes the timer: a tick per second exactly while it
    /// runs.
    pub open spec fn owed(self) -> Subscription {
        if self.state == State::Running {
            Subscription::EverySecond(self.id)
        } else {
            Subscription::Nothing
        }
    }

    /// The timer after `n` ticks.
    pub open spec fn ticked_times(self, n: nat) -> TimerView
        decreases n,
    {
        if n == 0 {
            self
        } else {
            self.ticked_times((n - 1) as nat).ticked()
        }
    }

    /// The timer after `n` start commands.
    pub open spec fn started_times(self, n: nat) -> TimerView
        decreases n,
    {
        if n == 0 {
            self
        } else {
            self.started_times((n - 1) as nat).started()
        }
    }
}

/// Countdown. Each tick on a running timer with more than a second left
/// takes exactly one second from the time left and adds it to the time
/// counted, and touches nothing else; so `n` ticks take `n` seconds as long as
/// a second is left after them. The tick that finds a second or less left
/// sets the time left to zero and rewrites the fields, and from then on the
/// time left stays zero.
pub proof fn lemma_countdown(t: TimerView, n: nat)
    requires
        t.state == State::Running,
    ensures
        t.time > 1 ==> t.ticked() == (TimerView {
            time: (t.time - 1) as nat,
            elapsed: t.elapsed + 1,
            ..t
        }),
        t.time <= 1 ==> t.ticked() == (TimerView { time: 0, ..t }).refreshed(),
        n < t.time ==> t.ticked_times(n) == (TimerView {
            time: (t.time - n) as nat,
            elapsed: t.elapsed + n,
            ..t
        }),
        n >= t.time && n >= 1 ==> t.ticked_times(n) == (TimerView {
            time: 0,
            elapsed: if t.time == 0 {
                t.elapsed
            } else {
                (t.elapsed + t.time - 1) as nat
            },
            ..t
        }).refreshed(),
    decreases n,
{
    if n >= 1 {
        lemma_countdown(t, (n - 1) as nat);
        let before = t.ticked_times((n - 1) as nat);
        assert(t.ticked_times(n) == before.ticked());
        if n >= t.time && n - 1 >= t.time && n - 1 >= 1 {
            assert(before.ticked() == before);
        }
    }
}

/// Start with fields that give no duration changes nothing, however often it
/// is repeated: a stopped timer stays stopped with the time it had.
pub proof fn lemma_start_rejected(t: TimerView, n: nat)
    requires
        t.duration() is Err,
    ensures
        t.started_times(n) == t,
    decreases n,
{
    if n >= 1 {
        lemma_start_rejected(t, (n - 1) as nat);
    }
}

/// Reset leaves a stopped timer with nothing to count and `"00"` in each
/// field, whatever the timer was before.
pub proof fn lemma_reset(t: TimerView)
    ensures
        t.reset() == (TimerView {
            state: State::Stopped,
            time: 0,
            hours: seq!['0', '0'],
            minutes: seq!['0', '0'],
            seconds: seq!['0', '0'],
            ..t
        }),
{
    assert(crate::duration::two_digits(0) =~= seq!['0', '0']);
}

/// Pause and resume. Stop keeps the time left; Start right after it resumes
/// from exactly that time with nothing counted; and a second Stop after `n`
/// ticks finds the time left smaller by `n` seconds, or zero where `n` is
/// more than was left. As long as a second is left, `n` is also what the
/// timer has counted.
pub proof fn lemma_pause_resume(t: TimerView, n: nat)
    requires
        t.wf(),
    ensures
        ({
            let paused = t.stopped();
            let resumed = paused.started();
            let again = resumed.ticked_times(n).stopped();
            &&& paused.time == t.time
            &&& paused.state == State::Stopped
            &&& resumed == TimerView { state: State::Running, elapsed: 0, ..paused }
            &&& again.state == State::Stopped
            &&& again.time == if n <= paused.time {
                paused.time - n
            } else {
                0
            }
            &&& n < paused.time ==> resumed.ticked_times(n).elapsed == n
        }),
{
    let paused = t.stopped();
    crate::duration::lemma_format_parse(t.time as u64);
    let resumed = paused.started();
    lemma_countdown(resumed, n);
}

/// Every transition keeps a well-formed timer well formed.
pub proof fn lemma_wf_kept(t: TimerView)
    requires
        t.wf(),
    ensures
        t.started().wf(),
        t.stopped().wf(),
        t.reset().wf(),
        t.notifying().wf(),
        t.ticked().wf(),
        t.refreshed().wf(),
{
}

/// Draws a random identifier: `uuid::Uuid::new_v4`, handed out as the number
/// that `Uuid::as_u128` gives.
///
/// Not verified. What is claimed holds of every draw: `new_v4` overwrites six
/// bits of the random number with the version 4 and the variant `10`. The
/// draw itself aborts where the operating system gives no random bytes.
#[verifier::external_body]
pub(crate) fn fresh_id() -> (id: u128)
    ensures
        is_random_id(id),
{
    uuid::Uuid::new_v4().as_u128()
}

impl Timer {
    /// A new timer under the identifier `id`.
    pub fn new(id: u128) -> (r: Timer)
        ensures
            r@ == TimerView::fresh(id),
            r@.wf(),
    {
        proof {
            reveal_strlit("00");
        }
        let r = Timer {
            id,
            name: String::new(),
            time: 0,
            elapsed: 0,
            state: State::Stopped,
            hours: "00".to_owned(),
            minutes: "00".to_owned(),
            seconds: "00".to_owned(),
        };
        assert(r@.hours =~= seq!['0', '0']);
        assert(r@.minutes =~= seq!['0', '0']);
        assert(r@.seconds =~= seq!['0', '0']);
        r
    }

    /// Whether the timer's numbers keep within 64 bits while it runs.
    pub fn is_wf(&self) -> (r: bool)
        ensures
            r == self@.wf(),
    {
        match self.state {
            State::Running => self.time.checked_add(self.elapsed).is_some(),
            _ => true,
        }
    }

    /// Rewrites the three fields from the time left.
    pub fn update_elapsed_hms(&mut self)
        ensures
            final(self)@ == old(self)@.refreshed(),
    {
        let (hours, minutes, seconds) = crate::duration::format(self.time);
        self.hours = hours;
        self.minutes = minutes;
        self.seconds = seconds;
    }

    /// The duration that the three fields give: hours, minutes and seconds
    /// each read as a number, added up in seconds.
    pub fn get_duration(&self) -> (r: Result<u64, ParseError>)
        ensures
            r == self@.duration(),
    {
        parse(self.hours.as_str(), self.minutes.as_str(), self.seconds.as_str())
    }

    /// The time left as hours, minutes and seconds fields, for display while
    /// the timer runs. The timer's own fields are not touched.
    pub fn time_to_hms_string(&self) -> (r: (String, String, String))
        ensures
            (r.0@, r.1@, r.2@) == format_spec(self@.time),
    {
        crate::duration::format(self.time)
    }

    /// What the scheduler owes the timer in its present state: a tick per
    /// second while it runs, else nothing.
    pub fn subscription(&self) -> (r: Subscription)
        ensures
            r == self@.owed(),
    {
        match self.state {
            State::Running => Subscription::EverySecond(self.id),
            State::NotificationSound => Subscription::Nothing,
            State::Stopped => Subscription::Nothing,
        }
    }

    /// A copy of the timer, field for field.
    pub fn duplicate(&self) -> (r: Timer)
        ensures
            r == *self,
    {
        Timer {
            id: self.id,
            name: self.name.clone(),
            time: self.time,
            elapsed: self.elapsed,
            state: self.state,
            hours: self.hours.clone(),
            minutes: self.minutes.clone(),
            seconds: self.seconds.clone(),
        }
    }

    /// Start. Returns whether the fields gave a duration; if not, the timer
    /// is unchanged.
    pub fn start(&mut self) -> (r: bool)
        ensures
            final(self)@ == old(self)@.started(),
            r == old(self)@.duration() is Ok,
    {
        match self.get_duration() {
            Ok(duration) => {
                self.state = State::Running;
                self.time = duration;
                self.elapsed = 0;
                true
            },
            Err(_) => false,
        }
    }

    /// Stop: pauses the timer and shows the time left in the fields.
    pub fn stop(&mut self)
        ensures
            final(self)@ == old(self)@.stopped(),
    {
        self.state = State::Stopped;
        self.update_elapsed_hms();
    }

    /// Reset: stops the timer with nothing left, every field `"00"`.
    pub fn reset(&mut self)
        ensures
            final(self)@ == old(self)@.reset(),
    {
        self.state = State::Stopped;
        self.time = 0;
        self.update_elapsed_hms();
    }

    /// Puts the expired timer into the state that it holds while the alarm is
    /// requested.
    pub fn notify(&mut self)
        ensures
            final(self)@ == old(self)@.notifying(),
    {
        self.state = State::NotificationSound;
    }

    /// One tick of one second. Returns whether the timer expired with this
    /// tick, in which case a notification is due.
    pub fn tick(&mut self) -> (expired: bool)
        requires
            old(self)@.wf(),
        ensures
            final(self)@ == old(self)@.ticked(),
            expired == old(self)@.expires(),
    {
        if self.state != State::Running {
            return false;
        }
        if self.time <= 1 {
            self.time = 0;
            self.update_elapsed_hms();
            return true;
        }
        self.time = self.time - 1;
        self.elapsed = self.elapsed + 1;
        false
    }
}

impl Default for Timer {
    /// A new timer under a randomly drawn identifier.
    fn default() -> (r: Timer)
        ensures
            r@ == TimerView::fresh(r.id),
            is_random_id(r.id),
    {
        Timer::new(fresh_id())
    }
}

} // verus!
