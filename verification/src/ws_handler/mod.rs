use vstd::prelude::*;

use crate::common::utils::get_elapsed_milis;

pub mod fields;
pub mod handshake;
pub mod packet;
pub mod room_state;
pub mod user_state;
pub mod ws_state;

verus! {

pub type StateType = u8;

pub type PermissionType = u8;

pub type PlayerType = u8;

pub const STATE_PAUSE: StateType = 0;

pub const STATE_PLAY: StateType = 1;

pub const STATE_MAX: StateType = 1;

pub const PERMISSION_RESTRICTED: PermissionType = 0b000;

pub const PERMISSION_CONTROLLABLE: PermissionType = 0b001;

pub const PERMISSION_CHANGER: PermissionType = 0b010;

pub const PERMISSION_ALL: PermissionType = 0b011;

pub const PLAYER_JW: PlayerType = 0;

pub const PLAYER_NORMAL: PlayerType = 1;

pub const PLAYER_MAX: PlayerType = 1;

/// Receive inactivity bound and room teardown grace, in milliseconds.
pub const CLIENT_TIMEOUT: u64 = 120_000;

/// Largest drift between a reported and the stored position that is still
/// considered in sync, in milliseconds.
pub const SYNC_TIMEOUT: u128 = 5_000;

/// Longest playback position a room accepts, in milliseconds (four hours).
pub const MAX_VIDEO_LEN: usize = 14_400_000;

/// A set of permission bits.
#[derive(Clone, Copy)]
pub struct Permission(pub PermissionType);

impl View for Permission {
    type V = PermissionType;

    open spec fn view(&self) -> PermissionType {
        self.0
    }
}

impl Permission {
    /// Whether every bit of `permission` is set.
    pub open spec fn grants(self, permission: PermissionType) -> bool {
        (self.0 & permission) == permission
    }

    pub fn has_permission(&self, permission: PermissionType) -> (held: bool)
        ensures
            held == self.grants(permission),
    {
        (self.0 & permission) == permission
    }

    pub fn set_permission(&mut self, permission: PermissionType)
        ensures
            final(self)@ == old(self)@ | permission,
    {
        self.0 = self.0 | permission;
    }

    pub fn clear_permission(&mut self, permission: PermissionType)
        ensures
            final(self)@ == old(self)@ & !permission,
    {
        self.0 = self.0 & !permission;
    }

    /// The bits as a plain integer.
    pub fn bits(&self) -> (bits: PermissionType)
        ensures
            bits == self@,
    {
        self.0
    }

    /// The permission made of exactly the given bits.
    pub fn from_bits(bits: PermissionType) -> (permission: Permission)
        ensures
            permission@ == bits,
    {
        Permission(bits)
    }
}

impl Default for Permission {
    fn default() -> (permission: Permission)
        ensures
            permission@ == PERMISSION_RESTRICTED,
    {
        Permission(PERMISSION_RESTRICTED)
    }
}

/// Setting bits and then asking for them answers yes; clearing them and then
/// asking for any one of them answers no.
pub proof fn lemma_permission_set_then_clear(bits: PermissionType, permission: PermissionType)
    ensures
        Permission(bits | permission).grants(permission),
        permission != 0 ==> !Permission(bits & !permission).grants(permission),
        Permission(bits & !permission).0 & permission == 0,
{
    assert((bits | permission) & permission == permission) by (bit_vector);
    assert((bits & !permission) & permission == 0) by (bit_vector);
}


/// The mathematical content of a [`VideoData`].
pub struct VideoView {
    pub last_time_updated: u128,
    pub time: usize,
    pub url: Seq<char>,
    pub cc_url: Seq<char>,
    pub state: StateType,
    pub permission: PermissionType,
    pub current_player: PlayerType,
}

impl VideoView {
    /// The stored position never exceeds the longest video and the state is
    /// either paused or playing.
    pub open spec fn wf(self) -> bool {
        &&& self.time <= MAX_VIDEO_LEN
        &&& self.state <= STATE_MAX
    }

    /// Milliseconds that passed between the last write and `now`; a clock
    /// that went backwards counts as no time at all.
    pub open spec fn elapsed(self, now: u128) -> int {
        if now >= self.last_time_updated {
            now - self.last_time_updated
        } else {
            0
        }
    }

    /// The position a viewer should be at when the clock reads `now`: the
    /// stored position while paused, the stored position plus the elapsed
    /// time while playing, never past the longest video.
    pub open spec fn projected_time(self, now: u128) -> int {
        if self.state == STATE_PLAY {
            if self.time + self.elapsed(now) > MAX_VIDEO_LEN {
                MAX_VIDEO_LEN as int
            } else {
                self.time + self.elapsed(now)
            }
        } else {
            self.time as int
        }
    }

    /// The state after the position was rewritten at `now`.
    pub open spec fn with_time(self, time: usize, now: u128) -> VideoView {
        VideoView { time, last_time_updated: now, ..self }
    }

    /// The state after position and play state were rewritten at `now`.
    pub open spec fn with_state(self, time: usize, state: StateType, now: u128) -> VideoView {
        VideoView { time, state, last_time_updated: now, ..self }
    }

    /// The state after the stored position was brought forward to `now`.
    pub open spec fn refreshed(self, now: u128) -> VideoView {
        VideoView { time: self.projected_time(now) as usize, last_time_updated: now, ..self }
    }
}

/// The authoritative playback state of one room.
pub struct VideoData {
    last_time_updated: u128,
    time: usize,
    url: String,
    cc_url: String,
    state: StateType,
    permission: Permission,
    current_player: PlayerType,
}

impl View for VideoData {
    type V = VideoView;

    closed spec fn view(&self) -> VideoView {
        VideoView {
            last_time_updated: self.last_time_updated,
            time: self.time,
            url: self.url@,
            cc_url: self.cc_url@,
            state: self.state,
            permission: self.permission@,
            current_player: self.current_player,
        }
    }
}

impl Clone for VideoData {
    fn clone(&self) -> (copy: VideoData)
        ensures
            copy@ == self@,
    {
        VideoData {
            last_time_updated: self.last_time_updated,
            time: self.time,
            url: self.url.clone(),
            cc_url: self.cc_url.clone(),
            state: self.state,
            permission: self.permission,
            current_player: self.current_player,
        }
    }
}

impl VideoData {
    /// A paused video at position zero with no permission bit set, last
    /// touched at `now`.
    pub fn new_at(url: String, cc_url: String, current_player: PlayerType, now: u128) -> (data:
        VideoData)
        ensures
            data@ == (VideoView {
                last_time_updated: now,
                time: 0,
                url: url@,
                cc_url: cc_url@,
                state: STATE_PAUSE,
                permission: PERMISSION_RESTRICTED,
                current_player,
            }),
            data@.wf(),
    {
        VideoData {
            last_time_updated: now,
            time: 0,
            url,
            cc_url,
            state: STATE_PAUSE,
            permission: Permission(PERMISSION_RESTRICTED),
            current_player,
        }
    }

    /// A paused video at position zero with no permission bit set, stamped
    /// with the current clock reading.
    pub fn new(url: String, cc_url: String, current_player: PlayerType) -> (data: VideoData)
        ensures
            data@ == (VideoView {
                last_time_updated: data@.last_time_updated,
                time: 0,
                url: url@,
                cc_url: cc_url@,
                state: STATE_PAUSE,
                permission: PERMISSION_RESTRICTED,
                current_player,
            }),
            data@.wf(),
    {
        let now = get_elapsed_milis();
        VideoData::new_at(url, cc_url, current_player, now)
    }

    pub fn get_url(&self) -> (url: String)
        ensures
            url@ == self@.url,
    {
        self.url.clone()
    }

    pub fn update_url(&mut self, url: String)
        ensures
            final(self)@ == (VideoView { url: url@, ..old(self)@ }),
    {
        self.url = url;
    }

    pub fn get_cc_url(&self) -> (cc_url: String)
        ensures
            cc_url@ == self@.cc_url,
    {
        self.cc_url.clone()
    }

    pub fn update_cc_url(&mut self, cc_url: String)
        ensures
            final(self)@ == (VideoView { cc_url: cc_url@, ..old(self)@ }),
    {
        self.cc_url = cc_url;
    }

    pub fn get_state(&self) -> (state: StateType)
        ensures
            state == self@.state,
    {
        self.state
    }

    /// Rewrites position and play state and stamps the write with `now`.
    pub fn set_state_at(&mut self, time: usize, state: StateType, now: u128)
        requires
            time <= MAX_VIDEO_LEN,
            state <= STATE_MAX,
        ensures
            final(self)@ == old(self)@.with_state(time, state, now),
            final(self)@.wf(),
    {
        self.state = state;
        self.time = time;
        self.last_time_updated = now;
    }

    /// Rewrites position and play state and stamps the write with the
    /// current clock reading.
    pub fn set_state(&mut self, time: usize, state: StateType)
        requires
            time <= MAX_VIDEO_LEN,
            state <= STATE_MAX,
        ensures
            final(self)@ == old(self)@.with_state(time, state, final(self)@.last_time_updated),
            final(self)@.wf(),
    {
        let now = get_elapsed_milis();
        self.set_state_at(time, state, now);
    }

    /// Rewrites the position and stamps the write with `now`.
    pub fn set_time_at(&mut self, time: usize, now: u128)
        requires
            time <= MAX_VIDEO_LEN,
        ensures
            final(self)@ == old(self)@.with_time(time, now),
            old(self)@.wf() ==> final(self)@.wf(),
    {
        self.time = time;
        self.last_time_updated = now;
    }

    /// Rewrites the position and stamps the write with the current clock
    /// reading.
    pub fn set_time(&mut self, time: usize)
        requires
            time <= MAX_VIDEO_LEN,
        ensures
            final(self)@ == old(self)@.with_time(time, final(self)@.last_time_updated),
            old(self)@.wf() ==> final(self)@.wf(),
    {
        let now = get_elapsed_milis();
        self.set_time_at(time, now);
    }

    pub fn get_time(&self) -> (time: usize)
        ensures
            time == self@.time,
    {
        self.time
    }

    /// Brings the stored position forward to `now`: while playing it advances
    /// by the elapsed time, stopping at the longest video; while paused it
    /// stays. The write is stamped with `now` either way.
    pub fn update_time_at(&mut self, now: u128)
        requires
            old(self)@.wf(),
        ensures
            final(self)@ == old(self)@.refreshed(now),
            final(self)@.wf(),
            final(self)@.time >= old(self)@.time,
    {
        let diff: u128 = if now >= self.last_time_updated {
            now - self.last_time_updated
        } else {
            0
        };
        self.last_time_updated = now;
        if self.state == STATE_PLAY {
            let room: usize = MAX_VIDEO_LEN - self.time;
            if diff > room as u128 {
                self.time = MAX_VIDEO_LEN;
            } else {
                self.time = self.time + diff as usize;
            }
        }
    }

    /// Brings the stored position forward to the current clock reading.
    pub fn update_time(&mut self)
        requires
            old(self)@.wf(),
        ensures
            final(self)@ == old(self)@.refreshed(final(self)@.last_time_updated),
            final(self)@.wf(),
            final(self)@.time >= old(self)@.time,
    {
        let now = get_elapsed_milis();
        self.update_time_at(now);
    }

    pub fn get_current_player(&self) -> (player: PlayerType)
        ensures
            player == self@.current_player,
    {
        self.current_player
    }

    pub fn set_current_player(&mut self, current_player: PlayerType)
        ensures
            final(self)@ == (VideoView { current_player, ..old(self)@ }),
    {
        self.current_player = current_player;
    }

    pub fn get_permission(&self) -> (permission: Permission)
        ensures
            permission@ == self@.permission,
    {
        self.permission
    }

    pub fn has_permission(&self, permission: PermissionType) -> (held: bool)
        ensures
            held == Permission(self@.permission).grants(permission),
    {
        self.permission.has_permission(permission)
    }

    pub fn set_permission(&mut self, permission: PermissionType)
        ensures
            final(self)@ == (VideoView {
                permission: old(self)@.permission | permission,
                ..old(self)@
            }),
    {
        self.permission.set_permission(permission);
    }

    pub fn clear_permission(&mut self, permission: PermissionType)
        ensures
            final(self)@ == (VideoView {
                permission: old(self)@.permission & !permission,
                ..old(self)@
            }),
    {
        self.permission.clear_permission(permission);
    }

    /// The position a viewer should be at when the clock reads `now`.
    pub fn projected_time(&self, now: u128) -> (time: usize)
        requires
            self@.wf(),
        ensures
            time == self@.projected_time(now),
    {
        if self.state == STATE_PLAY {
            let diff: u128 = if now >= self.last_time_updated {
                now - self.last_time_updated
            } else {
                0
            };
            let room: usize = MAX_VIDEO_LEN - self.time;
            if diff > room as u128 {
                MAX_VIDEO_LEN
            } else {
                self.time + diff as usize
            }
        } else {
            self.time
        }
    }
}

/// While a video plays and nothing rewrites it, the projected position never
/// falls below the stored one, never exceeds the longest video, and never
/// moves backwards as the clock advances.
pub proof fn lemma_projection_monotone(v: VideoView, earlier: u128, later: u128)
    requires
        v.wf(),
        earlier <= later,
    ensures
        v.time <= v.projected_time(earlier) <= v.projected_time(later) <= MAX_VIDEO_LEN,
        v.state == STATE_PAUSE ==> v.projected_time(later) == v.time,
{
}

/// Bringing the stored position forward does not change what later readers
/// see: projecting a refreshed state gives what projecting the state gave,
/// as long as the clock did not run backwards in between.
pub proof fn lemma_refresh_keeps_projection(v: VideoView, at: u128, now: u128)
    requires
        v.wf(),
        v.last_time_updated <= at <= now,
    ensures
        v.refreshed(at).wf(),
        v.refreshed(at).projected_time(now) == v.projected_time(now),
{
}

} // verus!
