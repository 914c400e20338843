//! Manual teleoperation limits, independent of autonomous navigation.
use vstd::prelude::*;

verus! {

/// A request of the operator.
#[derive(Debug)]
pub struct Request {
    pub seq: u64,
    pub tick: u64,
    pub op: String,
    pub motor: u16,
    pub servo: u16,
}

#[derive(Clone, Debug)]
pub struct Status {
    pub tick: u64,
    pub seq: u64,
    pub armed: bool,
    pub motor: u16,
    pub servo: u16,
    pub reason: String,
}

/// What an operator asks for, with its operation as a sequence of characters.
pub struct Ask {
    pub seq: u64,
    pub tick: u64,
    pub op: Seq<char>,
    pub motor: u16,
    pub servo: u16,
}

impl View for Request {
    type V = Ask;

    open spec fn view(&self) -> Ask {
        Ask {
            seq: self.seq,
            tick: self.tick,
            op: self.op@,
            motor: self.motor,
            servo: self.servo,
        }
    }
}

/// The state of the guard.
pub struct Watch {
    pub tick: u64,
    pub seq: u64,
    pub armed: bool,
    pub motor: u16,
    pub servo: u16,
    pub reason: Seq<char>,
    pub reverse: bool,
    pub received: u64,
    pub last_time: u64,
    pub stopped_at: Option<u64>,
}

pub open spec fn elapsed(now: u64, since: u64) -> int {
    if since <= now {
        now - since
    } else {
        0
    }
}

/// Whether both widths lie within the manual limits. Reverse widths are for
/// guards that allow them.
pub open spec fn within_limits(reverse: bool, motor: u16, servo: u16) -> bool {
    &&& (if reverse {
        1350int
    } else {
        1500int
    }) <= motor <= 1620
    &&& 1350 <= servo <= 1650
}

impl Watch {
    /// A locked guard.
    pub open spec fn initial(reverse: bool) -> Self {
        Watch {
            tick: 0,
            seq: 0,
            armed: false,
            motor: 1500,
            servo: 1500,
            reason: "locked"@,
            reverse,
            received: 0,
            last_time: 0,
            stopped_at: None,
        }
    }

    /// Disarmed, with both widths at their centre.
    pub open spec fn stopped(self, reason: Seq<char>) -> Self {
        Watch {
            stopped_at: Some(self.tick),
            armed: false,
            motor: 1500,
            servo: 1500,
            reason,
            ..self
        }
    }

    /// The guard at another time. Time that regresses, a gap in control while
    /// armed, and requests that have been missing for too long all stop it.
    pub open spec fn advanced(self, now: u64) -> Self {
        let ticked = Watch { tick: now, ..self };
        let checked = if now < self.last_time || (self.armed && elapsed(now, self.last_time)
            > 150) {
            ticked.stopped("control_gap"@)
        } else {
            ticked
        };
        let marked = Watch { last_time: now, ..checked };
        if marked.armed && elapsed(now, marked.received) >= 300 {
            marked.stopped("heartbeat_timeout"@)
        } else {
            marked
        }
    }

    /// Whether a request arms: it asks for it with centred widths, the guard is
    /// not armed, and it was made after the latest stop.
    pub open spec fn arms(self, ask: Ask) -> bool {
        &&& ask.op == "arm"@
        &&& ask.motor == 1500
        &&& ask.servo == 1500
        &&& !self.armed
        &&& self.stopped_at matches Some(at) ==> ask.tick > at
    }

    /// What a request does once time has advanced. A stop always wins.
    pub open spec fn answered(self, ask: Ask, now: u64) -> Self {
        if ask.op == "stop"@ {
            Watch {
                seq: if ask.seq > self.seq {
                    ask.seq
                } else {
                    self.seq
                },
                ..self
            }.stopped("operator_stop"@)
        } else if ask.seq <= self.seq || ask.tick > now || now - ask.tick >= 250 {
            self.stopped("stale_request"@)
        } else {
            let heard = Watch { seq: ask.seq, ..self };
            if !within_limits(self.reverse, ask.motor, ask.servo) {
                heard.stopped("pwm_out_of_range"@)
            } else if heard.arms(ask) {
                Watch { armed: true, reason: "armed"@, received: now, ..heard }
            } else if ask.op == "drive"@ && heard.armed {
                Watch {
                    motor: ask.motor,
                    servo: ask.servo,
                    reason: "manual"@,
                    received: now,
                    ..heard
                }
            } else {
                heard.stopped("not_armed_or_invalid_request"@)
            }
        }
    }

    pub open spec fn applied(self, ask: Ask, now: u64) -> Self {
        self.advanced(now).answered(ask, now)
    }

    /// What every reachable guard satisfies.
    pub open spec fn sound(self) -> bool {
        &&& within_limits(self.reverse, self.motor, self.servo)
        &&& !self.armed ==> self.motor == 1500 && self.servo == 1500
    }
}

/// What a guard remembers beside its status.
pub struct Memory {
    reverse: bool,
    received: u64,
    last_time: u64,
    stopped_at: Option<u64>,
}

impl Memory {
    pub closed spec fn spec_reverse(&self) -> bool {
        self.reverse
    }

    pub closed spec fn spec_received(&self) -> u64 {
        self.received
    }

    pub closed spec fn spec_last_time(&self) -> u64 {
        self.last_time
    }

    pub closed spec fn spec_stopped_at(&self) -> Option<u64> {
        self.stopped_at
    }
}

pub struct Guard {
    pub status: Status,
    pub memory: Memory,
}

impl View for Guard {
    type V = Watch;

    open spec fn view(&self) -> Watch {
        Watch {
            tick: self.status.tick,
            seq: self.status.seq,
            armed: self.status.armed,
            motor: self.status.motor,
            servo: self.status.servo,
            reason: self.status.reason@,
            reverse: self.memory.spec_reverse(),
            received: self.memory.spec_received(),
            last_time: self.memory.spec_last_time(),
            stopped_at: self.memory.spec_stopped_at(),
        }
    }
}

impl Guard {
    pub fn new(reverse: bool) -> (r: Self)
        ensures
            r@ == Watch::initial(reverse),
            r@.sound(),
    {
        Guard {
            status: Status {
                tick: 0,
                seq: 0,
                armed: false,
                motor: 1500,
                servo: 1500,
                reason: "locked".to_owned(),
            },
            memory: Memory { reverse, received: 0, last_time: 0, stopped_at: None },
        }
    }

    /// The public part of the state.
    pub fn snapshot(&self) -> (r: &Status)
        ensures
            *r == self.status,
            r.tick == self@.tick,
            r.seq == self@.seq,
            r.armed == self@.armed,
            r.motor == self@.motor,
            r.servo == self@.servo,
            r.reason@ == self@.reason,
    {
        &self.status
    }

    pub fn stop(&mut self, reason: &str)
        ensures
            final(self)@ == old(self)@.stopped(reason@),
    {
        self.memory.stopped_at = Some(self.status.tick);
        self.status.armed = false;
        self.status.motor = 1500;
        self.status.servo = 1500;
        self.status.reason = reason.to_owned();
    }

    pub fn advance(&mut self, now: u64)
        ensures
            final(self)@ == old(self)@.advanced(now),
            old(self)@.sound() ==> final(self)@.sound(),
    {
        self.status.tick = now;
        if now < self.memory.last_time || (self.status.armed && now.saturating_sub(self.memory.last_time) > 150) {
            self.stop("control_gap");
        }
        self.memory.last_time = now;
        if self.status.armed && now.saturating_sub(self.memory.received) >= 300 {
            self.stop("heartbeat_timeout");
        }
    }

    pub fn apply(&mut self, req: Request, now: u64)
        ensures
            final(self)@ == old(self)@.applied(req@, now),
            old(self)@.sound() ==> final(self)@.sound(),
    {
        self.advance(now);
        let arm: bool = req.op == "arm".to_owned();
        let drive: bool = req.op == "drive".to_owned();
        if req.op == "stop".to_owned() {
            if req.seq > self.status.seq {
                self.status.seq = req.seq;
            }
            self.stop("operator_stop");
            return ;
        }
        if req.seq <= self.status.seq || req.tick > now || now - req.tick >= 250 {
            self.stop("stale_request");
            return ;
        }
        self.status.seq = req.seq;
        let lowest: u16 = if self.memory.reverse {
            1350
        } else {
            1500
        };
        if req.motor > 1620 || req.motor < lowest || req.servo < 1350 || req.servo > 1650 {
            self.stop("pwm_out_of_range");
            return ;
        }
        let later: bool = match self.memory.stopped_at {
            None => true,
            Some(at) => req.tick > at,
        };
        if arm && req.motor == 1500 && req.servo == 1500 && !self.status.armed && later {
            self.status.armed = true;
            self.status.reason = "armed".to_owned();
        } else if drive && self.status.armed {
            self.status.motor = req.motor;
            self.status.servo = req.servo;
            self.status.reason = "manual".to_owned();
        } else {
            self.stop("not_armed_or_invalid_request");
            return ;
        }
        self.memory.received = now;
    }
}

/// The widths leave their centre only while armed, and then stay within the
/// limits: every operation keeps this.
pub proof fn law_soundness_is_kept(before: Watch, ask: Ask, now: u64, reason: Seq<char>)
    requires
        before.sound(),
    ensures
        before.applied(ask, now).sound(),
        before.advanced(now).sound(),
        before.stopped(reason).sound(),
{
}

/// A request to stop disarms and centres, however old it is.
pub proof fn law_stop_wins(before: Watch, ask: Ask, now: u64)
    requires
        ask.op == "stop"@,
    ensures
        ({
            let after = before.applied(ask, now);
            !after.armed && after.motor == 1500 && after.servo == 1500
        }),
{
}

/// A guard becomes armed only by an arm request with centred widths that was
/// made after the latest stop.
pub proof fn law_only_a_later_arm_request_arms(before: Watch, ask: Ask, now: u64)
    requires
        !before.armed,
        before.applied(ask, now).armed,
    ensures
        ask.op == "arm"@,
        ask.motor == 1500 && ask.servo == 1500,
        before.advanced(now).stopped_at matches Some(at) ==> at < ask.tick,
        before.last_time <= now ==> (before.stopped_at matches Some(at) ==> at < ask.tick),
        before.applied(ask, now).motor == before.motor,
{
}

/// Sequence numbers never go back, and one that is not new stops the guard.
pub proof fn law_sequence_numbers_increase(before: Watch, ask: Ask, now: u64)
    ensures
        before.applied(ask, now).seq >= before.seq,
        ask.seq <= before.seq ==> !before.applied(ask, now).armed,
{
}

/// Silence disarms: a guard that is advanced past the heartbeat limit without
/// a request is not armed.
pub proof fn law_silence_disarms(before: Watch, now: u64)
    requires
        now - before.received >= 300,
    ensures
        !before.advanced(now).armed,
        before.sound() ==> before.advanced(now).motor == 1500,
{
}

/// Without a fresh request nothing but stopping changes the widths.
pub proof fn law_advancing_never_drives(before: Watch, now: u64)
    ensures
        ({
            let after = before.advanced(now);
            ||| after.motor == before.motor && after.servo == before.servo && after.armed
                == before.armed
            ||| !after.armed && after.motor == 1500 && after.servo == 1500
        }),
{
}

/// An armed guard drives what a request asks for just where the request is new,
/// not from the future, less than a quarter of a second old and within the
/// limits: the motor at most at its manual limit forwards and, only where that
/// is allowed, backwards, and the servo as far to either side. The guard must
/// have been watched without a gap and heard of in time. Any other request to
/// drive leaves it disarmed with both widths centred.
pub proof fn law_driving_takes_a_timely_request_within_the_limits(
    before: Watch,
    ask: Ask,
    now: u64,
)
    requires
        before.sound(),
        ask.op == "drive"@,
    ensures
        ({
            let after = before.applied(ask, now);
            let least: u16 = if before.reverse {
                1350
            } else {
                1500
            };
            let timely = ask.seq > before.seq && ask.tick <= now && now < ask.tick + 250;
            let within = least <= ask.motor <= 1620 && 1350 <= ask.servo <= 1650;
            let watched = before.last_time <= now <= before.last_time + 150 && now
                < before.received + 300;
            &&& before.armed && watched && timely && within ==> after.armed && after.motor
                == ask.motor && after.servo == ask.servo && after.received == now && after.seq
                == ask.seq
            &&& !(before.armed && watched && timely && within) ==> !after.armed && after.motor
                == 1500 && after.servo == 1500
        }),
{
    reveal_strlit("drive");
    reveal_strlit("stop");
    reveal_strlit("arm");
    assert("drive"@.len() != "stop"@.len());
    assert("drive"@.len() != "arm"@.len());
}

/// An armed guard stays so through time just where the time does not go back,
/// is looked at often enough and not too long after the last request.
pub proof fn law_watching_keeps_the_guard_armed(before: Watch, now: u64)
    requires
        before.armed,
    ensures
        before.advanced(now).armed <==> before.last_time <= now <= before.last_time + 150 && now
            < before.received + 300,
        before.advanced(now).last_time == now && before.advanced(now).tick == now,
        !before.advanced(now).armed ==> before.advanced(now).stopped_at == Some(now),
{
}

} // verus!
