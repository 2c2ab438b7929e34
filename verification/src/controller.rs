//! Which producer feeds the channels.
//!
//! The controller decides which pipeline to start or stop next; the caller
//! does so and reports how it went. The outgoing producer is stopped before
//! the incoming one is started.
use crate::floats::Binary64;
use crate::producer;
use crate::producer::{pace_of, Pace};
use vstd::prelude::*;

verus! {

/// What is known of a producer's pipeline.
#[derive(Debug, Clone, Copy, PartialEq, Eq, Structural)]
pub enum Slot {
    /// There is none.
    Empty,
    /// It feeds no channel.
    Stopped,
    /// It was started, and may feed the channels.
    Started,
}

/// Which producer last took over the channels.
#[derive(Debug, Clone, Copy, PartialEq, Eq, Structural)]
pub enum Active {
    Nobody,
    Live,
    Playback,
}

/// What the caller has to do next.
#[derive(Debug, Clone, Copy, PartialEq, Eq, Structural)]
pub enum Command {
    /// Stop the playback pipeline and let go of it.
    StopPlayback,
    StopLive,
    StartLive,
    /// Start the pipeline that was built for this playback.
    StartPlayback,
}

/// What came of a request so far.
#[derive(Debug, Clone, Copy, PartialEq, Eq, Structural)]
pub enum Step {
    /// Carry out a command, then report.
    Do(Command),
    Done,
    /// The command that was reported failed; the request ends here.
    Failed,
    /// There is no live producer to start.
    LiveMissing,
    /// The playback speed is negative or not finite.
    BadSpeed,
}

/// A request that is being carried out.
#[derive(Debug, Clone, Copy, PartialEq, Eq, Structural)]
pub enum Request {
    GoLive,
    Play,
    EndPlayback,
    Shutdown,
}

/// Enforces that at most one producer feeds the channels.
#[derive(Debug, Clone, Copy, PartialEq, Eq)]
pub struct ProducerController {
    pub live: Slot,
    pub playback: Slot,
    pub active: Active,
    /// The request that is under way, and the command that was given for it.
    pub pending: Option<(Request, Command)>,
}

impl ProducerController {
    /// At most one producer may feed the channels, also while a command is
    /// being carried out.
    pub open spec fn wf(self) -> bool {
        &&& !(self.live == Slot::Started && self.playback == Slot::Started)
        &&& (self.pending matches Some((r, Command::StartPlayback)) ==> r == Request::Play
            && self.live != Slot::Started && self.playback == Slot::Empty)
        &&& (self.pending matches Some((r, Command::StartLive)) ==> (r == Request::GoLive || r
            == Request::EndPlayback) && self.playback == Slot::Empty)
        &&& (self.pending matches Some((r, Command::StopLive)) ==> (r == Request::Play || r
            == Request::Shutdown) && self.playback == Slot::Empty)
        &&& (self.pending matches Some((r, Command::StopPlayback)) ==> self.playback == Slot::Empty)
    }

    pub open spec fn idle(self) -> bool {
        self.pending is None
    }

    // How each request goes on, as a function of the state.

    /// Start the live producer.
    pub open spec fn to_live(self, r: Request) -> (ProducerController, Step) {
        if self.live == Slot::Empty {
            (ProducerController { pending: None, ..self }, Step::LiveMissing)
        } else {
            (
                ProducerController {
                    live: Slot::Started,
                    pending: Some((r, Command::StartLive)),
                    ..self
                },
                Step::Do(Command::StartLive),
            )
        }
    }

    /// Take the live producer off the channels, then start the playback.
    pub open spec fn to_playback(self) -> (ProducerController, Step) {
        if self.live == Slot::Empty {
            self.start_incoming()
        } else {
            (
                ProducerController {
                    pending: Some((Request::Play, Command::StopLive)),
                    ..self
                },
                Step::Do(Command::StopLive),
            )
        }
    }

    pub open spec fn start_incoming(self) -> (ProducerController, Step) {
        (
            ProducerController {
                pending: Some((Request::Play, Command::StartPlayback)),
                ..self
            },
            Step::Do(Command::StartPlayback),
        )
    }

    /// After the playback is gone, return to the live producer if the playback
    /// had taken over.
    pub open spec fn after_playback(self) -> (ProducerController, Step) {
        if self.active != Active::Playback {
            (ProducerController { pending: None, ..self }, Step::Done)
        } else if self.live == Slot::Empty {
            (ProducerController { active: Active::Nobody, pending: None, ..self }, Step::Done)
        } else {
            self.to_live(Request::EndPlayback)
        }
    }

    /// After the playback is gone, let go of the live producer too.
    pub open spec fn shut_live(self) -> (ProducerController, Step) {
        if self.live == Slot::Empty {
            (ProducerController { active: Active::Nobody, pending: None, ..self }, Step::Done)
        } else {
            (
                ProducerController {
                    live: Slot::Empty,
                    pending: Some((Request::Shutdown, Command::StopLive)),
                    ..self
                },
                Step::Do(Command::StopLive),
            )
        }
    }

    /// What a request does once no playback is in its way.
    pub open spec fn without_playback(self, r: Request) -> (ProducerController, Step) {
        match r {
            Request::GoLive => self.to_live(r),
            Request::Play => self.to_playback(),
            Request::EndPlayback => self.after_playback(),
            Request::Shutdown => self.shut_live(),
        }
    }

    /// How a request begins. A running playback is stopped first. Going live
    /// while live already has the channels does nothing.
    pub open spec fn begun(self, r: Request) -> (ProducerController, Step) {
        if r == Request::GoLive && self.active == Active::Live {
            (self, Step::Done)
        } else if self.playback != Slot::Empty {
            (
                ProducerController {
                    playback: Slot::Empty,
                    pending: Some((r, Command::StopPlayback)),
                    ..self
                },
                Step::Do(Command::StopPlayback),
            )
        } else {
            self.without_playback(r)
        }
    }

    /// How a request goes on after its command was carried out, or failed.
    pub open spec fn reported(self, ok: bool) -> (ProducerController, Step) {
        match self.pending {
            None => (self, Step::Done),
            Some((r, c)) => if !ok {
                (ProducerController { pending: None, ..self }, Step::Failed)
            } else {
                match c {
                    Command::StopPlayback => self.without_playback(r),
                    Command::StopLive => if r == Request::Play {
                        (ProducerController { live: Slot::Stopped, ..self }).start_incoming()
                    } else {
                        (
                            ProducerController {
                                active: Active::Nobody,
                                pending: None,
                                ..self
                            },
                            Step::Done,
                        )
                    },
                    Command::StartLive => (
                        ProducerController { active: Active::Live, pending: None, ..self },
                        Step::Done,
                    ),
                    Command::StartPlayback => (
                        ProducerController {
                            playback: Slot::Started,
                            active: Active::Playback,
                            pending: None,
                            ..self
                        },
                        Step::Done,
                    ),
                }
            },
        }
    }

    pub fn new() -> (c: ProducerController)
        ensures
            c.wf(),
            c.idle(),
            c.live == Slot::Empty,
            c.playback == Slot::Empty,
            c.active == Active::Nobody,
    {
        ProducerController {
            live: Slot::Empty,
            playback: Slot::Empty,
            active: Active::Nobody,
            pending: None,
        }
    }

    /// Take note of a live pipeline that was built. It replaces an earlier
    /// one, which the caller has stopped.
    pub fn install_live(&mut self)
        requires
            old(self).wf(),
            old(self).idle(),
        ensures
            final(self).wf(),
            *final(self) == (ProducerController { live: Slot::Stopped, ..*old(self) }),
    {
        self.live = Slot::Stopped;
    }

    fn start_live_slot(&mut self, r: Request) -> (s: Step)
        ensures
            (*final(self), s) == old(self).to_live(r),
    {
        if self.live == Slot::Empty {
            self.pending = None;
            Step::LiveMissing
        } else {
            self.live = Slot::Started;
            self.pending = Some((r, Command::StartLive));
            Step::Do(Command::StartLive)
        }
    }

    fn start_incoming_playback(&mut self) -> (s: Step)
        ensures
            (*final(self), s) == old(self).start_incoming(),
    {
        self.pending = Some((Request::Play, Command::StartPlayback));
        Step::Do(Command::StartPlayback)
    }

    fn go_on(&mut self, r: Request) -> (s: Step)
        ensures
            (*final(self), s) == old(self).without_playback(r),
    {
        match r {
            Request::GoLive => self.start_live_slot(r),
            Request::Play => {
                if self.live == Slot::Empty {
                    self.start_incoming_playback()
                } else {
                    self.pending = Some((Request::Play, Command::StopLive));
                    Step::Do(Command::StopLive)
                }
            },
            Request::EndPlayback => {
                if self.active != Active::Playback {
                    self.pending = None;
                    Step::Done
                } else if self.live == Slot::Empty {
                    self.active = Active::Nobody;
                    self.pending = None;
                    Step::Done
                } else {
                    self.start_live_slot(Request::EndPlayback)
                }
            },
            Request::Shutdown => {
                if self.live == Slot::Empty {
                    self.active = Active::Nobody;
                    self.pending = None;
                    Step::Done
                } else {
                    self.live = Slot::Empty;
                    self.pending = Some((Request::Shutdown, Command::StopLive));
                    Step::Do(Command::StopLive)
                }
            },
        }
    }

    fn begin(&mut self, r: Request) -> (s: Step)
        requires
            old(self).wf(),
            old(self).idle(),
        ensures
            final(self).wf(),
            (*final(self), s) == old(self).begun(r),
    {
        if r == Request::GoLive && self.active == Active::Live {
            Step::Done
        } else if self.playback != Slot::Empty {
            self.playback = Slot::Empty;
            self.pending = Some((r, Command::StopPlayback));
            Step::Do(Command::StopPlayback)
        } else {
            self.go_on(r)
        }
    }

    /// Give the channels to the live producer.
    pub fn start_live(&mut self) -> (s: Step)
        requires
            old(self).wf(),
            old(self).idle(),
        ensures
            final(self).wf(),
            (*final(self), s) == old(self).begun(Request::GoLive),
    {
        self.begin(Request::GoLive)
    }

    /// Give the channels to a playback at the given speed. A bad speed changes
    /// nothing.
    pub fn start_playback(&mut self, speed: Binary64) -> (s: Step)
        requires
            old(self).wf(),
            old(self).idle(),
        ensures
            final(self).wf(),
            match producer::pace_spec(speed) {
                Some(_) => (*final(self), s) == old(self).begun(Request::Play),
                None => *final(self) == *old(self) && s == Step::BadSpeed,
            },
    {
        let pace: Option<Pace> = pace_of(speed);
        match pace {
            Some(_) => self.transition_to_playback(),
            None => Step::BadSpeed,
        }
    }

    /// Give the channels to a playback pipeline that was built already.
    pub fn transition_to_playback(&mut self) -> (s: Step)
        requires
            old(self).wf(),
            old(self).idle(),
        ensures
            final(self).wf(),
            (*final(self), s) == old(self).begun(Request::Play),
    {
        self.begin(Request::Play)
    }

    /// End the playback and return to the live producer.
    pub fn stop_playback(&mut self) -> (s: Step)
        requires
            old(self).wf(),
            old(self).idle(),
        ensures
            final(self).wf(),
            (*final(self), s) == old(self).begun(Request::EndPlayback),
    {
        self.begin(Request::EndPlayback)
    }

    /// Let go of both producers.
    pub fn stop_all(&mut self) -> (s: Step)
        requires
            old(self).wf(),
            old(self).idle(),
        ensures
            final(self).wf(),
            (*final(self), s) == old(self).begun(Request::Shutdown),
    {
        self.begin(Request::Shutdown)
    }

    /// Report whether the last command was carried out.
    pub fn report(&mut self, ok: bool) -> (s: Step)
        requires
            old(self).wf(),
        ensures
            final(self).wf(),
            (*final(self), s) == old(self).reported(ok),
    {
        match self.pending {
            None => Step::Done,
            Some((r, c)) => {
                if !ok {
                    self.pending = None;
                    return Step::Failed;
                }
                match c {
                    Command::StopPlayback => self.go_on(r),
                    Command::StopLive => {
                        if r == Request::Play {
                            self.live = Slot::Stopped;
                            self.start_incoming_playback()
                        } else {
                            self.active = Active::Nobody;
                            self.pending = None;
                            Step::Done
                        }
                    },
                    Command::StartLive => {
                        self.active = Active::Live;
                        self.pending = None;
                        Step::Done
                    },
                    Command::StartPlayback => {
                        self.playback = Slot::Started;
                        self.active = Active::Playback;
                        self.pending = None;
                        Step::Done
                    },
                }
            },
        }
    }

    /// The name of the producer that last took over the channels.
    pub open spec fn active_name(self) -> Seq<char> {
        match self.active {
            Active::Nobody => "none"@,
            Active::Live => "live"@,
            Active::Playback => "playback"@,
        }
    }

    pub fn active(&self) -> (s: &'static str)
        ensures
            s@ == self.active_name(),
    {
        match self.active {
            Active::Nobody => "none",
            Active::Live => "live",
            Active::Playback => "playback",
        }
    }
}

impl Default for ProducerController {
    fn default() -> (c: ProducerController)
        ensures
            c.wf(),
            c.idle(),
            c.live == Slot::Empty,
            c.playback == Slot::Empty,
            c.active == Active::Nobody,
    {
        ProducerController::new()
    }
}

// What holds of every run.

/// How a request ends when every command that it gives is carried out.
pub open spec fn settled(step: (ProducerController, Step)) -> (ProducerController, Step) {
    let s1 = if step.1 is Do {
        step.0.reported(true)
    } else {
        step
    };
    let s2 = if s1.1 is Do {
        s1.0.reported(true)
    } else {
        s1
    };
    if s2.1 is Do {
        s2.0.reported(true)
    } else {
        s2
    }
}

/// A producer is only started while the other one does not feed the channels.
pub proof fn law_single_active(c: ProducerController, r: Request, ok: bool)
    requires
        c.wf(),
    ensures
        c.idle() ==> {
            &&& c.begun(r).0.wf()
            &&& (c.begun(r).1 == Step::Do(Command::StartLive) ==> c.begun(r).0.playback
                != Slot::Started)
            &&& (c.begun(r).1 == Step::Do(Command::StartPlayback) ==> c.begun(r).0.live
                != Slot::Started)
        },
        c.reported(ok).0.wf(),
        c.reported(ok).1 == Step::Do(Command::StartLive) ==> c.reported(ok).0.playback
            != Slot::Started,
        c.reported(ok).1 == Step::Do(Command::StartPlayback) ==> c.reported(ok).0.live
            != Slot::Started,
{
}

/// Every request comes to an end after at most three commands.
pub proof fn law_requests_settle(c: ProducerController, r: Request)
    requires
        c.wf(),
        c.idle(),
    ensures
        !(settled(c.begun(r)).1 is Do),
        settled(c.begun(r)).0.idle(),
        settled(c.begun(r)).0.wf(),
{
}

/// A playback that went well has the channels to itself, and ending it gives
/// them back to the live producer, if there is one.
pub proof fn law_playback_returns_to_live(c: ProducerController)
    requires
        c.wf(),
        c.idle(),
    ensures
        ({
            let played = settled(c.begun(Request::Play));
            let ended = settled(played.0.begun(Request::EndPlayback));
            &&& played.1 == Step::Done
            &&& played.0.active == Active::Playback
            &&& played.0.playback == Slot::Started
            &&& played.0.live != Slot::Started
            &&& ended.1 == Step::Done
            &&& ended.0.playback == Slot::Empty
            &&& c.live != Slot::Empty ==> ended.0.active == Active::Live && ended.0.live
                == Slot::Started
            &&& c.live == Slot::Empty ==> ended.0.active == Active::Nobody
        }),
{
}

/// Ending a playback twice, and going live twice, is the same as once.
pub proof fn law_requests_idempotent(c: ProducerController)
    requires
        c.wf(),
        c.idle(),
    ensures
        ({
            let ended = settled(c.begun(Request::EndPlayback)).0;
            settled(ended.begun(Request::EndPlayback)) == (ended, Step::Done)
        }),
        ({
            let went = settled(c.begun(Request::GoLive));
            went.1 == Step::Done ==> settled(went.0.begun(Request::GoLive)) == went
        }),
{
}

/// A shutdown leaves nothing behind.
pub proof fn law_shutdown_empties(c: ProducerController)
    requires
        c.wf(),
        c.idle(),
    ensures
        settled(c.begun(Request::Shutdown)) == (
            ProducerController {
                live: Slot::Empty,
                playback: Slot::Empty,
                active: Active::Nobody,
                pending: None,
            },
            Step::Done,
        ),
{
}

/// Going live ends a playback and starts the live producer. Without a live producer
/// nothing is started, and it is said to be missing.
pub proof fn law_going_live(c: ProducerController)
    requires
        c.wf(),
        c.idle(),
    ensures
        ({
            let went = settled(c.begun(Request::GoLive));
            &&& c.active == Active::Live ==> went == (c, Step::Done)
            &&& c.active != Active::Live ==> went.0.playback == Slot::Empty
            &&& c.active != Active::Live && c.live != Slot::Empty ==> went.1 == Step::Done
                && went.0.active == Active::Live && went.0.live == Slot::Started
            &&& c.active != Active::Live && c.live == Slot::Empty ==> went.1 == Step::LiveMissing
                && went.0.active == c.active && went.0.live == Slot::Empty
        }),
{
}

/// Which commands a request gives, one after the other: a playback stops before
/// anything else, and the live producer stops before a playback starts.
pub proof fn law_order_of_commands(c: ProducerController, r: Request)
    requires
        c.wf(),
        c.idle(),
        r == Request::GoLive ==> c.active != Active::Live,
    ensures
        ({
            let first = c.begun(r);
            let second = first.0.reported(true);
            let next = if c.playback != Slot::Empty {
                second
            } else {
                first
            };
            &&& c.playback != Slot::Empty ==> first.1 == Step::Do(Command::StopPlayback)
            &&& c.live != Slot::Empty && r == Request::Play ==> next.1 == Step::Do(Command::StopLive)
                && next.0.reported(true).1 == Step::Do(Command::StartPlayback)
            &&& c.live == Slot::Empty && r == Request::Play ==> next.1 == Step::Do(
                Command::StartPlayback,
            )
            &&& c.live != Slot::Empty && r == Request::GoLive ==> next.1 == Step::Do(
                Command::StartLive,
            )
            &&& c.live != Slot::Empty && r == Request::Shutdown ==> next.1 == Step::Do(
                Command::StopLive,
            )
            &&& c.live != Slot::Empty && r == Request::EndPlayback && c.active == Active::Playback
                ==> next.1 == Step::Do(Command::StartLive)
            &&& r == Request::EndPlayback && c.active != Active::Playback ==> next.1 == Step::Done
                && next.0.active == c.active && next.0.live == c.live
        }),
{
}

/// A command that fails ends its request. Who was last in charge of the channels stays.
pub proof fn law_failed_command(c: ProducerController)
    requires
        c.wf(),
        !c.idle(),
    ensures
        c.reported(false).1 == Step::Failed,
        c.reported(false).0 == (ProducerController { pending: None, ..c }),
{
}

/// Each producer goes by its own name.
pub proof fn law_names_of_producers(c: ProducerController)
    ensures
        c.active_name() == "live"@ <==> c.active == Active::Live,
        c.active_name() == "playback"@ <==> c.active == Active::Playback,
        c.active_name() == "none"@ <==> c.active == Active::Nobody,
{
    reveal_strlit("live");
    reveal_strlit("playback");
    reveal_strlit("none");
    assert("live"@[0] != "none"@[0]);
    assert("live"@.len() != "playback"@.len());
    assert("none"@.len() != "playback"@.len());
}

} // verus!
