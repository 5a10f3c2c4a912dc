//! The registry of log followers: at most one tailing worker per unit,
//! started idempotently, stopped cooperatively, and removed by the worker
//! itself when its loop ends.

use crate::keyed::KeyedMap;
use crate::text::texts;
use vstd::prelude::*;

verus! {

/// The registry after a start of `unit`: a new entry unless one is there.
pub open spec fn after_start<H>(
    m: Map<Seq<char>, (u64, H)>,
    unit: Seq<char>,
    token: u64,
    handle: H,
) -> Map<Seq<char>, (u64, H)> {
    if m.contains_key(unit) {
        m
    } else {
        m.insert(unit, (token, handle))
    }
}

/// The registry after the worker with `token` for `unit` ends: its own entry
/// goes, and an entry of a later worker for the same unit stays.
pub open spec fn after_finish<H>(m: Map<Seq<char>, (u64, H)>, unit: Seq<char>, token: u64) -> Map<
    Seq<char>,
    (u64, H),
> {
    if m.contains_key(unit) && m[unit].0 == token {
        m.remove(unit)
    } else {
        m
    }
}

/// The registry of active followers: for each unit, the token of its
/// worker, which tells it apart from later workers for the same unit, and
/// the handle that cancels it.
pub struct FollowerRegistry<H> {
    followers: KeyedMap<(u64, H)>,
    next_token: u64,
}

/// What starting a follower did.
#[derive(Clone, Copy, Debug, PartialEq, Eq, Structural)]
pub enum FollowStart {
    /// A new entry was recorded: the caller spawns its worker, which carries
    /// this token.
    Started { token: u64 },
    /// The unit already had a follower: nothing was recorded.
    AlreadyFollowing,
}

impl<H> View for FollowerRegistry<H> {
    type V = Map<Seq<char>, (u64, H)>;

    closed spec fn view(&self) -> Map<Seq<char>, (u64, H)> {
        self.followers@
    }
}

impl<H> FollowerRegistry<H> {
    /// Well-formedness: at most one entry per unit.
    pub closed spec fn wf(&self) -> bool {
        self.followers.wf()
    }

    /// The empty registry.
    pub fn new() -> (r: Self)
        ensures
            r.wf(),
            r@ == Map::<Seq<char>, (u64, H)>::empty(),
    {
        FollowerRegistry { followers: KeyedMap::new(), next_token: 0 }
    }

    /// Whether `unit` has a follower.
    pub fn is_following(&self, unit: &str) -> (r: bool)
        requires
            self.wf(),
        ensures
            r == self@.contains_key(unit@),
    {
        self.followers.contains_key(unit)
    }

    /// How many entries the registry holds for `unit`.
    pub fn entries_for(&self, unit: &str) -> (r: usize)
        requires
            self.wf(),
        ensures
            r == if self@.contains_key(unit@) {
                1usize
            } else {
                0usize
            },
    {
        self.followers.count_key(unit)
    }

    /// Records a follower of `unit` cancelled through `handle`, unless the
    /// unit already has one: starting twice is no error and records nothing
    /// the second time.
    pub fn start_following(&mut self, unit: &str, handle: H) -> (r: FollowStart)
        requires
            old(self).wf(),
        ensures
            final(self).wf(),
            r == FollowStart::AlreadyFollowing <==> old(self)@.contains_key(unit@),
            match r {
                FollowStart::Started { token } => final(self)@ == after_start(
                    old(self)@,
                    unit@,
                    token,
                    handle,
                ),
                FollowStart::AlreadyFollowing => final(self)@ == old(self)@,
            },
    {
        if self.followers.contains_key(unit) {
            return FollowStart::AlreadyFollowing;
        }
        let token = self.next_token;
        self.next_token = if self.next_token < u64::MAX {
            self.next_token + 1
        } else {
            0
        };
        let _ = self.followers.insert(unit, (token, handle));
        FollowStart::Started { token }
    }

    /// Removes the follower of `unit` and hands back its cancellation handle,
    /// for the caller to signal. A unit with no follower is left alone.
    pub fn stop_following(&mut self, unit: &str) -> (r: Option<H>)
        requires
            old(self).wf(),
        ensures
            final(self).wf(),
            final(self)@ == old(self)@.remove(unit@),
            !old(self)@.contains_key(unit@) ==> final(self)@ == old(self)@,
            match r {
                Some(h) => old(self)@.contains_key(unit@) && h == old(self)@[unit@].1,
                None => !old(self)@.contains_key(unit@),
            },
    {
        match self.followers.remove(unit) {
            Some((_, handle)) => Some(handle),
            None => None,
        }
    }

    /// Called by the worker with `token` when its loop ends, for whatever
    /// reason: removes its own entry, and leaves alone an entry that a later
    /// start recorded for the same unit.
    pub fn finish(&mut self, unit: &str, token: u64) -> (r: bool)
        requires
            old(self).wf(),
        ensures
            final(self).wf(),
            r == (old(self)@.contains_key(unit@) && old(self)@[unit@].0 == token),
            final(self)@ == after_finish(old(self)@, unit@, token),
    {
        let own = match self.followers.get(unit) {
            Some(entry) => entry.0 == token,
            None => false,
        };
        if own {
            let _ = self.followers.remove(unit);
        }
        own
    }
}

/// Starting a follower twice in a row for a unit that had none records one
/// entry, the first start's: the second start finds it and spawns nothing.
pub proof fn lemma_start_twice_records_once<H>(
    m: Map<Seq<char>, (u64, H)>,
    unit: Seq<char>,
    first_token: u64,
    first_handle: H,
    second_token: u64,
    second_handle: H,
)
    requires
        !m.contains_key(unit),
    ensures
        after_start(m, unit, first_token, first_handle).contains_key(unit),
        after_start(
            after_start(m, unit, first_token, first_handle),
            unit,
            second_token,
            second_handle,
        ) == after_start(m, unit, first_token, first_handle),
        after_start(m, unit, first_token, first_handle)[unit] == (first_token, first_handle),
{
}

/// Once the worker of a unit ends, the unit has no entry, and the next start
/// records a fresh one.
pub proof fn lemma_restart_after_finish<H>(
    m: Map<Seq<char>, (u64, H)>,
    unit: Seq<char>,
    token: u64,
    next_token: u64,
    next_handle: H,
)
    requires
        m.contains_key(unit),
        m[unit].0 == token,
    ensures
        !after_finish(m, unit, token).contains_key(unit),
        after_start(after_finish(m, unit, token), unit, next_token, next_handle)[unit] == (
            next_token,
            next_handle,
        ),
{
}

/// A line event published to the observers of a unit.
#[derive(Clone, Debug)]
pub struct FollowerMsg {
    pub unit: String,
    pub line: String,
}

/// What reading the tail's output gave.
pub enum TailEvent {
    /// One line of output.
    Line(String),
    /// The output could not be read.
    ReadFailed,
    /// The output ended.
    Ended,
}

/// What the worker does next.
pub enum TailAction {
    Publish(FollowerMsg),
    Stop,
}

/// One step of a follower's loop: after a line arrives, a pending
/// cancellation stops the loop; otherwise the line is published. A read
/// failure or the end of output stops it too.
pub fn tail_step(unit: &str, cancel_requested: bool, event: TailEvent) -> (r: TailAction)
    ensures
        match event {
            TailEvent::Line(l) => if cancel_requested {
                r is Stop
            } else {
                match r {
                    TailAction::Publish(m) => m.unit@ == unit@ && m.line@ == l@,
                    TailAction::Stop => false,
                }
            },
            _ => r is Stop,
        },
{
    match event {
        TailEvent::Line(line) => {
            if cancel_requested {
                TailAction::Stop
            } else {
                TailAction::Publish(FollowerMsg { unit: String::from_str(unit), line })
            }
        },
        _ => TailAction::Stop,
    }
}

/// The notice published when the tail could not be started.
pub open spec fn spawn_failure_line() -> Seq<char> {
    "<failed to spwan journalctl>"@
}

/// The single message published for `unit` when its tail could not be
/// started.
pub fn spawn_failure_msg(unit: &str) -> (r: FollowerMsg)
    ensures
        r.unit@ == unit@,
        r.line@ == spawn_failure_line(),
{
    FollowerMsg { unit: String::from_str(unit), line: String::from_str("<failed to spwan journalctl>") }
}

/// The arguments of the log tail for `unit`: follow its journal, message
/// text only.
pub fn tail_args(unit: &str) -> (r: Vec<String>)
    ensures
        texts(r@) == seq!["-u"@, unit@, "-f"@, "-o"@, "cat"@],
{
    let mut r: Vec<String> = Vec::new();
    r.push(String::from_str("-u"));
    r.push(String::from_str(unit));
    r.push(String::from_str("-f"));
    r.push(String::from_str("-o"));
    r.push(String::from_str("cat"));
    assert(texts(r@) =~= seq!["-u"@, unit@, "-f"@, "-o"@, "cat"@]);
    r
}

} // verus!
