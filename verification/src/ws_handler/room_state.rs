//! One room: its playback state, its seats and its teardown timer.

use vstd::prelude::*;

use crate::common::Id;
use crate::ws_handler::{VideoData, VideoView, CLIENT_TIMEOUT};

verus! {

/// The mathematical content of a [`RoomState`].
pub struct RoomView {
    pub data: VideoView,
    pub id: Seq<u8>,
    pub name: Seq<char>,
    pub remaining_users: u32,
    pub max_users: u32,
    pub draining_since: Option<u128>,
}

impl RoomView {
    /// A room in which every seat is free and no teardown is pending.
    pub open spec fn fresh(data: VideoView, id: Seq<u8>, name: Seq<char>, max_users: u32) -> RoomView {
        RoomView { data, id, name, remaining_users: max_users, max_users, draining_since: None }
    }

    /// Every seat is free.
    pub open spec fn is_empty(self) -> bool {
        self.remaining_users == self.max_users
    }

    /// No seat is free.
    pub open spec fn is_full(self) -> bool {
        self.remaining_users == 0
    }

    /// How many connections hold a seat.
    pub open spec fn seated(self) -> int {
        self.max_users - self.remaining_users
    }

    /// Free seats never exceed the seats there are, the playback state is
    /// well formed, and a room that waits for its teardown is empty.
    pub open spec fn wf(self) -> bool {
        &&& self.remaining_users <= self.max_users
        &&& self.data.wf()
        &&& self.draining_since is Some ==> self.is_empty()
    }

    /// The room after a connection took a seat. Taking a seat calls off a
    /// pending teardown.
    pub open spec fn joined(self) -> RoomView {
        RoomView {
            remaining_users: (self.remaining_users - 1) as u32,
            draining_since: None,
            ..self
        }
    }

    /// The room after a connection gave up its seat at `now`. Free seats
    /// never grow beyond the seats there are. The leave that frees the last
    /// taken seat arms the teardown timer.
    pub open spec fn left(self, now: u128) -> RoomView {
        if self.remaining_users >= self.max_users {
            self
        } else {
            RoomView {
                remaining_users: (self.remaining_users + 1) as u32,
                draining_since: if self.remaining_users + 1 == self.max_users {
                    Some(now)
                } else {
                    None
                },
                ..self
            }
        }
    }

    /// How long the room still has to wait empty before it is due, in
    /// milliseconds, when the clock reads `now`; nothing where no teardown
    /// is pending. A clock that reads earlier than the arming starts the
    /// whole grace period anew.
    pub open spec fn grace_left(self, now: u128) -> Option<u64> {
        match self.draining_since {
            None => None,
            Some(armed) => Some(
                if now < armed {
                    CLIENT_TIMEOUT
                } else if now - armed >= CLIENT_TIMEOUT {
                    0
                } else {
                    (CLIENT_TIMEOUT - (now - armed)) as u64
                },
            ),
        }
    }

    /// The teardown timer was armed at least `CLIENT_TIMEOUT` before `now`
    /// and nobody took a seat since.
    pub open spec fn is_due(self, now: u128) -> bool {
        match self.draining_since {
            Some(armed) => now >= armed && now - armed >= CLIENT_TIMEOUT,
            None => false,
        }
    }
}

/// A room as the registry keeps it.
pub struct RoomState {
    pub(crate) data: VideoData,
    pub(crate) id: Id,
    pub(crate) name: String,
    pub(crate) remaining_users: u32,
    pub(crate) max_users: u32,
    pub(crate) draining_since: Option<u128>,
}

impl View for RoomState {
    type V = RoomView;

    open(crate) spec fn view(&self) -> RoomView {
        RoomView {
            data: self.data@,
            id: self.id@,
            name: self.name@,
            remaining_users: self.remaining_users,
            max_users: self.max_users,
            draining_since: self.draining_since,
        }
    }
}

impl Clone for RoomState {
    fn clone(&self) -> (copy: RoomState)
        ensures
            copy@ == self@,
    {
        RoomState {
            data: self.data.clone(),
            id: self.id,
            name: self.name.clone(),
            remaining_users: self.remaining_users,
            max_users: self.max_users,
            draining_since: self.draining_since,
        }
    }
}

impl RoomState {
    /// A room in which every seat is free and no teardown is pending.
    pub fn new(data: VideoData, id: Id, name: String, max_users: u32) -> (room: RoomState)
        ensures
            room@ == RoomView::fresh(data@, id@, name@, max_users),
    {
        RoomState { data, id, name, remaining_users: max_users, max_users, draining_since: None }
    }

    /// Gives a seat back at `now`. Answers whether any connection still
    /// holds a seat; when none does the room waits for its teardown.
    pub fn user_left(&mut self, now: u128) -> (users_remain: bool)
        requires
            old(self)@.wf(),
        ensures
            final(self)@ == old(self)@.left(now),
            final(self)@.wf(),
            users_remain == !final(self)@.is_empty(),
    {
        if self.remaining_users >= self.max_users {
            return false;
        }
        self.remaining_users = self.remaining_users + 1;
        if self.remaining_users == self.max_users {
            self.draining_since = Some(now);
            false
        } else {
            self.draining_since = None;
            true
        }
    }

    /// Takes a seat if one is free and answers whether it did. A room
    /// without a free seat stays as it is.
    pub fn user_join(&mut self) -> (seated: bool)
        requires
            old(self)@.wf(),
        ensures
            seated == !old(self)@.is_full(),
            final(self)@ == if seated {
                old(self)@.joined()
            } else {
                old(self)@
            },
            final(self)@.wf(),
    {
        if self.remaining_users == 0 {
            return false;
        }
        self.remaining_users = self.remaining_users - 1;
        self.draining_since = None;
        true
    }

    pub fn is_full(&self) -> (full: bool)
        ensures
            full == self@.is_full(),
    {
        self.remaining_users == 0
    }

    pub fn is_empty(&self) -> (empty: bool)
        ensures
            empty == self@.is_empty(),
    {
        self.remaining_users == self.max_users
    }

    /// Whether the room has waited empty for its whole grace period when
    /// the clock reads `now`.
    pub fn is_due(&self, now: u128) -> (due: bool)
        ensures
            due == self@.is_due(now),
    {
        match self.draining_since {
            Some(armed) => now >= armed && now - armed >= CLIENT_TIMEOUT as u128,
            None => false,
        }
    }

    /// How long the room still has to wait empty before it is due, in
    /// milliseconds, when the clock reads `now`; nothing where no teardown
    /// is pending. The room is due exactly when nothing is left to wait.
    pub fn grace_left(&self, now: u128) -> (left: Option<u64>)
        ensures
            left == self@.grace_left(now),
            left == Some(0u64) <==> self@.is_due(now),
    {
        match self.draining_since {
            None => None,
            Some(armed) => if now < armed {
                Some(CLIENT_TIMEOUT)
            } else if now - armed >= CLIENT_TIMEOUT as u128 {
                Some(0)
            } else {
                Some(CLIENT_TIMEOUT - (now - armed) as u64)
            },
        }
    }

    pub fn id(&self) -> (id: Id)
        ensures
            id@ == self@.id,
    {
        self.id
    }

    pub fn name(&self) -> (name: String)
        ensures
            name@ == self@.name,
    {
        self.name.clone()
    }

    pub fn max_users(&self) -> (max_users: u32)
        ensures
            max_users == self@.max_users,
    {
        self.max_users
    }

    pub fn remaining_users(&self) -> (remaining: u32)
        ensures
            remaining == self@.remaining_users,
    {
        self.remaining_users
    }

    /// The playback state of the room.
    pub fn data(&self) -> (data: &VideoData)
        ensures
            data@ == self@.data,
    {
        &self.data
    }
}

/// Seats are conserved: a join that succeeds seats exactly one connection
/// more, a leave of a seated connection exactly one less, and neither ever
/// takes the free seats out of the range from zero to the seats there are.
pub proof fn lemma_seats_conserved(room: RoomView, now: u128)
    requires
        room.wf(),
    ensures
        !room.is_full() ==> room.joined().wf() && room.joined().seated() == room.seated() + 1,
        room.left(now).wf(),
        0 <= room.left(now).remaining_users <= room.max_users,
        !room.is_empty() ==> room.left(now).seated() == room.seated() - 1,
        room.is_empty() ==> room.left(now) == room,
{
}

/// A room is due for teardown only if it is empty. A join always calls the
/// teardown off: after it the room is not due at any time, until a leave
/// empties it again. And a room that a leave at `now` has emptied is due no
/// sooner than `CLIENT_TIMEOUT` after `now`.
pub proof fn lemma_join_cancels_teardown(room: RoomView, now: u128, later: u128)
    requires
        room.wf(),
    ensures
        room.is_due(now) ==> room.is_empty(),
        !room.is_full() ==> !room.joined().is_due(later),
        !room.is_empty() && room.left(now).is_due(later) ==> room.left(now).is_empty() && later
            - now >= CLIENT_TIMEOUT,
{
}


/// What can happen to the seats of a room: a connection asks for one, or a
/// connection gives one back when the clock reads the given time.
pub enum SeatEvent {
    Join,
    Leave(u128),
}

impl RoomView {
    /// The room after one event. A join finds a seat or changes nothing.
    pub open spec fn after(self, event: SeatEvent) -> RoomView {
        match event {
            SeatEvent::Join => if self.is_full() {
                self
            } else {
                self.joined()
            },
            SeatEvent::Leave(at) => self.left(at),
        }
    }

    /// The room after a history of events.
    pub open spec fn after_all(self, events: Seq<SeatEvent>) -> RoomView
        decreases events.len(),
    {
        if events.len() == 0 {
            self
        } else {
            self.after_all(events.drop_last()).after(events.last())
        }
    }

    /// In the history `events`, the event at index `k` is a leave at `at`
    /// that emptied the room, and the room has been empty ever since.
    pub open spec fn emptied_for_good(self, events: Seq<SeatEvent>, k: int, at: u128) -> bool {
        &&& 0 <= k < events.len()
        &&& events[k] == SeatEvent::Leave(at)
        &&& !self.after_all(events.take(k)).is_empty()
        &&& forall|j: int|
            k < j <= events.len() ==> (#[trigger] self.after_all(events.take(j))).is_empty()
    }
}

/// After any history, a room whose teardown timer was not armed at the
/// start has its timer armed exactly when a leave emptied it and it has
/// been empty ever since, and the timer then reads the time of that leave.
pub proof fn lemma_timer_tracks_emptiness(room: RoomView, events: Seq<SeatEvent>)
    requires
        room.wf(),
        room.draining_since is None,
    ensures
        room.after_all(events).wf(),
        forall|k: int, at: u128| #[trigger]
            room.emptied_for_good(events, k, at) ==> room.after_all(events).draining_since == Some(
                at,
            ),
        room.after_all(events).draining_since matches Some(at) ==> room.emptied_for_good(
            events,
            events.len() - 1 - trailing_idle(room, events),
            at,
        ),
    decreases events.len(),
{
    if events.len() == 0 {
        assert forall|k: int, at: u128| #[trigger] room.emptied_for_good(events, k, at) implies false by {}
    } else {
        let prev = events.drop_last();
        let before = room.after_all(prev);
        let now = room.after_all(events);
        lemma_timer_tracks_emptiness(room, prev);
        assert(events.take(events.len() as int) =~= events);
        assert(events.take(prev.len() as int) =~= prev);
        assert forall|j: int| 0 <= j <= prev.len() implies #[trigger] events.take(j) == prev.take(
            j,
        ) by {
            assert(events.take(j) =~= prev.take(j));
        }
        assert forall|k: int, at: u128| #[trigger]
            room.emptied_for_good(events, k, at) implies now.draining_since == Some(at) by {
            assert(room.after_all(events.take(events.len() as int)).is_empty());
            if k < prev.len() {
                assert(room.after_all(events.take(prev.len() as int)).is_empty());
                assert(events.take(k) == prev.take(k));
                assert(prev[k] == events[k]);
                assert forall|j: int| k < j <= prev.len() implies (#[trigger] room.after_all(
                    prev.take(j),
                )).is_empty() by {
                    assert(events.take(j) == prev.take(j));
                    assert(room.after_all(events.take(j)).is_empty());
                }
                assert(room.emptied_for_good(prev, k, at));
            }
        }
        if now.draining_since is Some {
            let at = now.draining_since->0;
            let idle = trailing_idle(room, events);
            let k = events.len() - 1 - idle;
            if before.is_empty() {
                assert(now == before);
                assert(trailing_idle(room, events) == trailing_idle(room, prev) + 1);
                let k_prev = prev.len() - 1 - trailing_idle(room, prev);
                assert(k == k_prev);
                assert(room.emptied_for_good(prev, k, at));
                assert(events[k] == prev[k]);
                assert(events.take(k) == prev.take(k));
                assert forall|j: int| k < j <= events.len() implies (#[trigger] room.after_all(
                    events.take(j),
                )).is_empty() by {
                    if j <= prev.len() {
                        assert(events.take(j) == prev.take(j));
                        assert(room.after_all(prev.take(j)).is_empty());
                    }
                }
            } else {
                assert(idle == 0);
                assert(events.take(k) == prev);
            }
        }
    }
}

/// How many events at the end of a history found the room already empty.
pub open spec fn trailing_idle(room: RoomView, events: Seq<SeatEvent>) -> int
    decreases events.len(),
{
    if events.len() == 0 || !room.after_all(events.drop_last()).is_empty() {
        0
    } else {
        trailing_idle(room, events.drop_last()) + 1
    }
}

/// A room is due for its removal exactly when it has been empty without a
/// break for at least `CLIENT_TIMEOUT`: after any history of joins and
/// leaves, a room that started with its timer unarmed is due at `now` if
/// and only if some leave emptied it at least `CLIENT_TIMEOUT` before `now`
/// and it has been empty ever since.
pub proof fn lemma_due_iff_continuously_empty(room: RoomView, events: Seq<SeatEvent>, now: u128)
    requires
        room.wf(),
        room.draining_since is None,
    ensures
        room.after_all(events).is_due(now) <==> exists|k: int, at: u128| #[trigger]
            room.emptied_for_good(events, k, at) && now >= at && now - at >= CLIENT_TIMEOUT,
{
    lemma_timer_tracks_emptiness(room, events);
    let end = room.after_all(events);
    if end.is_due(now) {
        let at = end.draining_since->0;
        let k = events.len() - 1 - trailing_idle(room, events);
        assert(room.emptied_for_good(events, k, at) && now >= at && now - at >= CLIENT_TIMEOUT);
    }
}

} // verus!
