//! The keys of the rooms: numbered, rotated on schedule, with the previous
//! key kept for messages still under way.

use crate::crypto::{EncryptedChannel, EncryptedMessage, SessionKey};
use crate::error::Error;
use crate::primitives::{hkdf_expand_32, hkdf_sha256};
use crate::protocol::{AudioPacket, AudioPacketView, EncryptedAudioPacket};
use crate::string_map::StringMap;
use crate::time::{duration_from_ms, duration_millis, duration_to_ms, wall_clock_ms};
use std::time::Duration;
use vstd::bytes::{spec_u64_to_le_bytes, u64_to_le_bytes};
use vstd::prelude::*;
use vstd::string::StringExecFns;

verus! {

/// Time between two scheduled rotations unless another is given: one hour,
/// in milliseconds.
pub const DEFAULT_KEY_ROTATION_INTERVAL_MS: u64 = 3_600_000;

/// Tells that a room moved on to a new key.
#[derive(Debug, Clone)]
pub struct KeyRotationEvent {
    pub room_id: String,
    pub new_key_id: u64,
    pub previous_key_id: Option<u64>,
}

/// A numbered key of a room with the channel state that belongs to it.
pub struct SessionKeyInfo {
    pub id: u64,
    pub channel: EncryptedChannel,
}

/// The keys of one room: the one in use, the one it replaced, and the
/// instant of the next scheduled rotation.
pub struct RoomKeys {
    pub current_key: SessionKeyInfo,
    pub previous_key: Option<SessionKeyInfo>,
    pub next_rotation: u64,
}

/// Reason of the error returned for a room that the manager does not hold.
pub open spec fn reason_room_not_found(room_id: Seq<char>) -> Seq<char> {
    "Room "@ + room_id + " not found"@
}

/// Reason of the error returned when neither key of a room opens a message.
pub open spec fn reason_all_keys_failed() -> Seq<char> {
    "Decryption failed with all keys"@
}

/// Reason of the error returned when a room's key number cannot grow.
pub open spec fn reason_rotation_failed() -> Seq<char> {
    "Failed to rotate key"@
}

fn room_not_found(room_id: &str) -> (e: Error)
    ensures
        e.is_crypto(reason_room_not_found(room_id@)),
{
    let mut reason = String::from_str("Room ");
    reason.append(room_id);
    reason.append(" not found");
    Error::Crypto(reason)
}

/// The key that follows `current` under number `new_id`: HKDF-SHA256 without
/// salt over the current key, with the number in little-endian order as info.
pub open spec fn next_key_bytes(current: Seq<u8>, new_id: u64) -> Seq<u8> {
    hkdf_sha256(None, current, spec_u64_to_le_bytes(new_id))
}

impl RoomKeys {
    /// Milliseconds from `now` to the next scheduled rotation, zero once it
    /// is due.
    pub open spec fn until_rotation(&self, now: u64) -> u64 {
        if self.due(now) {
            0
        } else {
            (self.next_rotation - now) as u64
        }
    }

    /// A room is due at `now` once its scheduled instant has come.
    pub open spec fn due(&self, now: u64) -> bool {
        now >= self.next_rotation
    }

    /// A room can rotate while its key number can still grow.
    pub open spec fn can_rotate(&self) -> bool {
        self.current_key.id < u64::MAX
    }

    /// The keys of a room that was just created with `initial_key` at `now`.
    pub open spec fn is_initial(&self, initial_key: SessionKey, now: u64, interval: u64) -> bool {
        &&& self.current_key.id == 1
        &&& self.current_key.channel.is_fresh(initial_key)
        &&& self.previous_key is None
        &&& self.next_rotation == now.saturating_add(interval)
    }

    /// `after` is what a rotation at `now` makes of these keys: the number
    /// grows by one, the new key derives from the current one and lives for
    /// one interval, the current key with its channel state becomes the
    /// previous one, and the next rotation is one interval away.
    pub open spec fn rotated(&self, now: u64, interval: u64, after: RoomKeys) -> bool {
        &&& self.can_rotate()
        &&& after.current_key.id == self.current_key.id + 1
        &&& after.current_key.channel.send_counter() == 0
        &&& after.current_key.channel.seen() == Map::<u64, u64>::empty()
        &&& after.current_key.channel.peer_key() is None
        &&& after.current_key.channel.key().bytes() == next_key_bytes(
            self.current_key.channel.key().bytes(),
            after.current_key.id,
        )
        &&& after.current_key.channel.key().created_at() == now
        &&& after.current_key.channel.key().lifetime() == interval
        &&& after.previous_key == Some(self.current_key)
        &&& after.next_rotation == now.saturating_add(interval)
    }

    /// What sealing `plaintext` at `now` does to the keys of a room: the
    /// current channel decides, as [`EncryptedChannel::encrypt_spec`] says;
    /// nothing else changes.
    pub open spec fn encrypt_spec(
        &self,
        plaintext: Seq<u8>,
        now: u64,
        after: RoomKeys,
        r: Result<EncryptedMessage, Error>,
    ) -> bool {
        &&& after.previous_key == self.previous_key
        &&& after.next_rotation == self.next_rotation
        &&& after.current_key.id == self.current_key.id
        &&& self.current_key.channel.encrypt_spec(plaintext, now, after.current_key.channel, r)
    }

    /// What opening `message` at `now` does to the keys of a room: the
    /// current key is tried first; if it refuses and there is a previous key
    /// that is still alive, that one decides; otherwise the call fails.
    pub open spec fn decrypt_spec(
        &self,
        message: EncryptedMessage,
        now: u64,
        after: RoomKeys,
        r: Result<Vec<u8>, Error>,
    ) -> bool {
        &&& after.next_rotation == self.next_rotation
        &&& after.current_key.id == self.current_key.id
        &&& match (self.previous_key, after.previous_key) {
            (Some(p), Some(q)) => p.id == q.id,
            (None, None) => true,
            _ => false,
        }
        &&& if self.current_key.channel.accepts(message, now) {
            &&& self.current_key.channel.decrypt_spec(message, now, after.current_key.channel, r)
            &&& self.previous_unchanged(after)
        } else {
            &&& after.current_key.channel.same_state(self.current_key.channel)
            &&& match self.previous_key {
                Some(prev) => if prev.channel.key().expired_at(now) {
                    &&& self.previous_unchanged(after)
                    &&& r matches Err(e) && e.is_crypto(reason_all_keys_failed())
                } else {
                    prev.channel.decrypt_spec(message, now, after.previous_key->0.channel, r)
                },
                None => r matches Err(e) && e.is_crypto(reason_all_keys_failed()),
            }
        }
    }

    /// The previous key of `after` is in the state of the previous key of `self`.
    pub open spec fn previous_unchanged(&self, after: RoomKeys) -> bool {
        match (self.previous_key, after.previous_key) {
            (Some(p), Some(q)) => p.id == q.id && q.channel.same_state(p.channel),
            (None, None) => true,
            _ => false,
        }
    }
}

impl Default for SessionKeyManager {
    fn default() -> (m: Self)
        ensures
            m.wf(),
            m.rooms() == Map::<Seq<char>, RoomKeys>::empty(),
            m.interval() == DEFAULT_KEY_ROTATION_INTERVAL_MS,
    {
        Self::new()
    }
}

/// An event as plain values: room id, new key number, previous key number.
pub open spec fn event_view(e: KeyRotationEvent) -> (Seq<char>, u64, Option<u64>) {
    (e.room_id@, e.new_key_id, e.previous_key_id)
}

/// The keys of every room, by room id.
pub struct SessionKeyManager {
    rooms: StringMap<RoomKeys>,
    rotation_interval: u64,
}

impl SessionKeyManager {
    /// The keys of every room, by room id.
    pub closed spec fn rooms(&self) -> Map<Seq<char>, RoomKeys> {
        self.rooms@
    }

    /// The room ids in the order in which the rooms were created.
    pub closed spec fn room_ids(&self) -> Seq<Seq<char>> {
        self.rooms.keys()
    }

    /// The time between two scheduled rotations, in milliseconds.
    pub closed spec fn interval(&self) -> u64 {
        self.rotation_interval
    }

    /// No room is held twice, and the room ids are the rooms' keys.
    pub closed spec fn wf(&self) -> bool {
        self.rooms.wf()
    }

    /// A manager without rooms that rotates every hour.
    pub fn new() -> (m: Self)
        ensures
            m.wf(),
            m.rooms() == Map::<Seq<char>, RoomKeys>::empty(),
            m.room_ids() == Seq::<Seq<char>>::empty(),
            m.interval() == DEFAULT_KEY_ROTATION_INTERVAL_MS,
    {
        let m = Self { rooms: StringMap::new(), rotation_interval: DEFAULT_KEY_ROTATION_INTERVAL_MS };
        assert(m.rooms() =~= Map::<Seq<char>, RoomKeys>::empty());
        m
    }

    /// The same manager with another rotation interval, in milliseconds.
    pub fn with_rotation_interval_ms(self, interval: u64) -> (m: Self)
        ensures
            m.rooms() == self.rooms(),
            m.room_ids() == self.room_ids(),
            m.wf() == self.wf(),
            m.interval() == interval,
    {
        Self { rooms: self.rooms, rotation_interval: interval }
    }

    /// The same manager with another rotation interval, counted in whole
    /// milliseconds.
    pub fn with_rotation_interval(self, interval: Duration) -> (m: Self)
        ensures
            m.rooms() == self.rooms(),
            m.room_ids() == self.room_ids(),
            m.wf() == self.wf(),
            m.interval() == duration_millis(interval),
    {
        self.with_rotation_interval_ms(duration_to_ms(interval))
    }

    /// Number of rooms.
    pub fn room_count(&self) -> (n: usize)
        requires
            self.wf(),
        ensures
            n == self.rooms().dom().len(),
            n == self.room_ids().len(),
    {
        proof {
            self.rooms.lemma_view_len();
        }
        self.rooms.len()
    }

    /// Whether the manager holds `room_id`.
    pub fn has_room(&self, room_id: &str) -> (b: bool)
        requires
            self.wf(),
        ensures
            b == self.rooms().contains_key(room_id@),
    {
        self.rooms.contains_key(room_id)
    }

    /// The number of the key in use in `room_id`.
    pub fn get_current_key_id(&self, room_id: &str) -> (id: Option<u64>)
        requires
            self.wf(),
        ensures
            match id {
                Some(n) => self.rooms().contains_key(room_id@) && n == self.rooms()[room_id@].current_key.id,
                None => !self.rooms().contains_key(room_id@),
            },
    {
        match self.rooms.get(room_id) {
            Some(room) => Some(room.current_key.id),
            None => None,
        }
    }

    /// `after` holds the same rooms as `self`, with the same keys in every
    /// room but `room_id`.
    pub open spec fn same_except(&self, after: Self, room_id: Seq<char>) -> bool {
        &&& after.interval() == self.interval()
        &&& after.room_ids() == self.room_ids()
        &&& after.rooms().dom() == self.rooms().dom()
        &&& forall|k: Seq<char>|
            self.rooms().contains_key(k) && k != room_id ==> after.rooms()[k] == self.rooms()[k]
    }

    /// Creates `room_id` at `now` with `initial_key` under number 1, or
    /// starts it over if it exists, and schedules its first rotation one
    /// interval later.
    pub fn create_room_at(&mut self, room_id: &str, initial_key: SessionKey, now: u64) -> (id: u64)
        requires
            old(self).wf(),
        ensures
            final(self).wf(),
            id == 1,
            final(self).interval() == old(self).interval(),
            final(self).rooms().dom() == old(self).rooms().dom().insert(room_id@),
            final(self).rooms()[room_id@].is_initial(initial_key, now, old(self).interval()),
            forall|k: Seq<char>|
                old(self).rooms().contains_key(k) && k != room_id@ ==> final(self).rooms()[k] == old(self).rooms()[k],
            final(self).room_ids() == if old(self).rooms().contains_key(room_id@) {
                old(self).room_ids()
            } else {
                old(self).room_ids().push(room_id@)
            },
    {
        let keys = RoomKeys {
            current_key: SessionKeyInfo { id: 1, channel: EncryptedChannel::new(initial_key) },
            previous_key: None,
            next_rotation: now.saturating_add(self.rotation_interval),
        };
        self.rooms.insert(room_id.to_owned(), keys);
        1
    }

    /// Creates `room_id` at the current clock reading.
    pub fn create_room(&mut self, room_id: &str, initial_key: SessionKey) -> (id: u64)
        requires
            old(self).wf(),
        ensures
            final(self).wf(),
            id == 1,
            final(self).interval() == old(self).interval(),
            final(self).rooms().dom() == old(self).rooms().dom().insert(room_id@),
            exists|now: u64| #[trigger]
                final(self).rooms()[room_id@].is_initial(initial_key, now, old(self).interval()),
            forall|k: Seq<char>|
                old(self).rooms().contains_key(k) && k != room_id@ ==> final(self).rooms()[k] == old(self).rooms()[k],
    {
        let now = wall_clock_ms();
        let id = self.create_room_at(room_id, initial_key, now);
        assert(self.rooms()[room_id@].is_initial(initial_key, now, old(self).interval()));
        id
    }

    /// Forgets `room_id` and its keys.
    pub fn remove_room(&mut self, room_id: &str)
        requires
            old(self).wf(),
        ensures
            final(self).wf(),
            final(self).interval() == old(self).interval(),
            final(self).rooms() == old(self).rooms().remove(room_id@),
    {
        let _ = self.rooms.remove(room_id);
    }

    /// Seals `plaintext` at `now` under the current key of `room_id`.
    ///
    /// An unknown room fails and changes nothing. Otherwise the room's
    /// current channel decides, as [`EncryptedChannel::encrypt_spec`] says;
    /// nothing else changes.
    pub fn encrypt_at(
        &mut self,
        room_id: &str,
        plaintext: &[u8],
        now: u64,
    ) -> (r: Result<EncryptedMessage, Error>)
        requires
            old(self).wf(),
        ensures
            final(self).wf(),
            old(self).same_except(*final(self), room_id@),
            match old(self).rooms().contains_key(room_id@) {
                false => r matches Err(e) && e.is_crypto(reason_room_not_found(room_id@)),
                true => old(self).rooms()[room_id@].encrypt_spec(
                    plaintext@,
                    now,
                    final(self).rooms()[room_id@],
                    r,
                ),
            },
    {
        match self.rooms.position(room_id) {
            None => Err(room_not_found(room_id)),
            Some(i) => {
                proof {
                    self.rooms.lemma_view_at(i as int);
                }
                let room = self.rooms.value_mut(i);
                let r = room.current_key.channel.encrypt_at(plaintext, now);
                proof {
                    self.lemma_updated_at(*old(self), i as int);
                }
                r
            },
        }
    }

    /// Seals `plaintext` at the current clock reading under the current key
    /// of `room_id`.
    pub fn encrypt(
        &mut self,
        room_id: &str,
        plaintext: &[u8],
    ) -> (r: Result<EncryptedMessage, Error>)
        requires
            old(self).wf(),
        ensures
            final(self).wf(),
            old(self).same_except(*final(self), room_id@),
            !old(self).rooms().contains_key(room_id@) ==> (r matches Err(e) && e.is_crypto(
                reason_room_not_found(room_id@),
            )),
            old(self).rooms().contains_key(room_id@) ==> exists|now: u64| #[trigger]
                old(self).rooms()[room_id@].encrypt_spec(
                    plaintext@,
                    now,
                    final(self).rooms()[room_id@],
                    r,
                ),
    {
        let now = wall_clock_ms();
        let r = self.encrypt_at(room_id, plaintext, now);
        assert(old(self).rooms().contains_key(room_id@) ==> old(self).rooms()[room_id@].encrypt_spec(
            plaintext@,
            now,
            self.rooms()[room_id@],
            r,
        ));
        r
    }

    /// Opens `message` at the current clock reading with the keys of `room_id`.
    pub fn decrypt(
        &mut self,
        room_id: &str,
        message: &EncryptedMessage,
    ) -> (r: Result<Vec<u8>, Error>)
        requires
            old(self).wf(),
        ensures
            final(self).wf(),
            old(self).same_except(*final(self), room_id@),
            !old(self).rooms().contains_key(room_id@) ==> (r matches Err(e) && e.is_crypto(
                reason_room_not_found(room_id@),
            )),
            old(self).rooms().contains_key(room_id@) ==> exists|now: u64| #[trigger]
                old(self).rooms()[room_id@].decrypt_spec(
                    *message,
                    now,
                    final(self).rooms()[room_id@],
                    r,
                ),
    {
        let now = wall_clock_ms();
        let r = self.decrypt_at(room_id, message, now);
        assert(old(self).rooms().contains_key(room_id@) ==> old(self).rooms()[room_id@].decrypt_spec(
            *message,
            now,
            self.rooms()[room_id@],
            r,
        ));
        r
    }

    /// Opens `message` at `now` with the keys of `room_id`.
    ///
    /// An unknown room fails and changes nothing. Otherwise the room's keys
    /// decide, as [`RoomKeys::decrypt_spec`] says; nothing else changes.
    pub fn decrypt_at(
        &mut self,
        room_id: &str,
        message: &EncryptedMessage,
        now: u64,
    ) -> (r: Result<Vec<u8>, Error>)
        requires
            old(self).wf(),
        ensures
            final(self).wf(),
            old(self).same_except(*final(self), room_id@),
            match old(self).rooms().contains_key(room_id@) {
                false => r matches Err(e) && e.is_crypto(reason_room_not_found(room_id@)),
                true => old(self).rooms()[room_id@].decrypt_spec(
                    *message,
                    now,
                    final(self).rooms()[room_id@],
                    r,
                ),
            },
    {
        match self.rooms.position(room_id) {
            None => Err(room_not_found(room_id)),
            Some(i) => {
                proof {
                    self.rooms.lemma_view_at(i as int);
                }
                let room = self.rooms.value_mut(i);
                let ghost before = *room;
                let first = room.current_key.channel.decrypt_at(message, now);
                let r = match first {
                    Ok(p) => Ok(p),
                    Err(_) => match &mut room.previous_key {
                        Some(prev) => {
                            if prev.channel.is_key_expired_at(now) {
                                Err(Error::crypto("Decryption failed with all keys"))
                            } else {
                                prev.channel.decrypt_at(message, now)
                            }
                        },
                        None => Err(Error::crypto("Decryption failed with all keys")),
                    },
                };
                assert(before.decrypt_spec(*message, now, *room, r));
                proof {
                    self.lemma_updated_at(*old(self), i as int);
                }
                r
            },
        }
    }

    /// Moves `room` on to its next key at `now`, if its key number can grow.
    fn rotate_room_key(room: &mut RoomKeys, now: u64, interval: u64) -> (ids: Option<(u64, u64)>)
        ensures
            match ids {
                Some((new_id, previous_id)) => {
                    &&& old(room).rotated(now, interval, *final(room))
                    &&& new_id == final(room).current_key.id
                    &&& previous_id == old(room).current_key.id
                },
                None => !old(room).can_rotate() && *final(room) == *old(room),
            },
    {
        if room.current_key.id == u64::MAX {
            return None;
        }
        let previous_id = room.current_key.id;
        let new_id = previous_id + 1;
        let info = u64_to_le_bytes(new_id);
        let bytes = hkdf_expand_32(None, room.current_key.channel.key_bytes().as_slice(), info.as_slice());
        let new_key = SessionKey::with_expiry_at(bytes, interval, now);
        let mut key_info = SessionKeyInfo { id: new_id, channel: EncryptedChannel::new(new_key) };
        std::mem::swap(&mut room.current_key, &mut key_info);
        room.previous_key = Some(key_info);
        room.next_rotation = now.saturating_add(interval);
        Some((new_id, previous_id))
    }

    /// The events that a rotation scan at `now` emits for the first `n`
    /// rooms: one for each room that is due and can rotate, in room order.
    pub open spec fn rotation_events(&self, now: u64, n: nat) -> Seq<(Seq<char>, u64, Option<u64>)>
        decreases n,
    {
        if n == 0 {
            Seq::empty()
        } else {
            let id = self.room_ids()[n - 1];
            let room = self.rooms()[id];
            let before = self.rotation_events(now, (n - 1) as nat);
            if room.due(now) && room.can_rotate() {
                before.push((id, (room.current_key.id + 1) as u64, Some(room.current_key.id)))
            } else {
                before
            }
        }
    }

    /// What a rotation scan at `now` makes of the manager and emits: a room
    /// that is due and whose key number can grow is rotated as
    /// [`RoomKeys::rotated`] says; every other room is left as it is; the
    /// events name the rotated rooms in room order.
    pub open spec fn scanned(&self, now: u64, after: Self, events: Seq<KeyRotationEvent>) -> bool {
        &&& after.interval() == self.interval()
        &&& after.room_ids() == self.room_ids()
        &&& after.rooms().dom() == self.rooms().dom()
        &&& forall|k: Seq<char>| #[trigger]
            self.rooms().contains_key(k) ==> {
                let before = self.rooms()[k];
                let then = after.rooms()[k];
                if before.due(now) && before.can_rotate() {
                    before.rotated(now, self.interval(), then)
                } else {
                    then == before
                }
            }
        &&& events.len() == self.rotation_events(now, self.room_ids().len()).len()
        &&& forall|j: int|
            0 <= j < events.len() ==> event_view(#[trigger] events[j]) == self.rotation_events(
                now,
                self.room_ids().len(),
            )[j]
    }

    /// Rotates every room that is due at `now` and tells which.
    ///
    /// A room that is due and whose key number can grow is rotated as
    /// [`RoomKeys::rotated`] says; every other room is left as it is. The
    /// events name the rotated rooms in room order.
    pub fn check_rotation_at(&mut self, now: u64) -> (events: Vec<KeyRotationEvent>)
        requires
            old(self).wf(),
        ensures
            final(self).wf(),
            old(self).scanned(now, *final(self), events@),
    {
        let mut events: Vec<KeyRotationEvent> = Vec::new();
        let interval = self.rotation_interval;
        let n = self.rooms.len();
        let mut i: usize = 0;
        while i < n
            invariant
                old(self).wf(),
                self.wf(),
                i <= n,
                n == old(self).rooms.keys().len(),
                interval == old(self).rotation_interval,
                self.rotation_interval == interval,
                self.rooms.keys() == old(self).rooms.keys(),
                self.rooms.values().len() == n,
                old(self).rooms.values().len() == n,
                forall|j: int| i <= j < n ==> self.rooms.values()[j] == old(self).rooms.values()[j],
                forall|j: int|
                    0 <= j < i ==> {
                        let before = #[trigger] old(self).rooms.values()[j];
                        let after = self.rooms.values()[j];
                        if before.due(now) && before.can_rotate() {
                            before.rotated(now, interval, after)
                        } else {
                            after == before
                        }
                    },
                events@.len() == old(self).rotation_events(now, i as nat).len(),
                forall|j: int|
                    0 <= j < events@.len() ==> event_view(#[trigger] events@[j])
                        == old(self).rotation_events(now, i as nat)[j],
            decreases n - i,
        {
            proof {
                old(self).rooms.lemma_view_at(i as int);
            }
            let ghost prior = *self;
            let room_id = self.rooms.key_at(i).clone();
            let room = self.rooms.value_mut(i);
            if now >= room.next_rotation {
                match Self::rotate_room_key(room, now, interval) {
                    Some((new_key_id, previous_id)) => {
                        events.push(
                            KeyRotationEvent { room_id, new_key_id, previous_key_id: Some(previous_id) },
                        );
                    },
                    None => {},
                }
            }
            assert(self.rooms.values() =~= prior.rooms.values().update(i as int, self.rooms.values()[i as int]));
            i += 1;
        }
        proof {
            assert forall|k: Seq<char>| #[trigger] old(self).rooms().contains_key(k) implies {
                let before = old(self).rooms()[k];
                let after = self.rooms()[k];
                if before.due(now) && before.can_rotate() {
                    before.rotated(now, old(self).interval(), after)
                } else {
                    after == before
                }
            } by {
                old(self).rooms.lemma_view_key(k);
                let j = old(self).rooms.keys().index_of(k);
                self.rooms.lemma_view_at(j);
            }
            assert(self.rooms().dom() =~= old(self).rooms().dom());
        }
        events
    }

    /// Rotates every room that is due at the current clock reading.
    pub fn check_rotation(&mut self) -> (events: Vec<KeyRotationEvent>)
        requires
            old(self).wf(),
        ensures
            final(self).wf(),
            exists|now: u64| #[trigger] old(self).scanned(now, *final(self), events@),
    {
        let now = wall_clock_ms();
        let events = self.check_rotation_at(now);
        assert(old(self).scanned(now, *self, events@));
        events
    }

    /// What a forced rotation of `room_id` at `now` makes of the manager and
    /// returns: the room is rotated as [`RoomKeys::rotated`] says and the
    /// event tells of it; an unknown room, and a room whose key number
    /// cannot grow, fail and change nothing.
    pub open spec fn forced(&self, room_id: Seq<char>, now: u64, after: Self, r: Result<KeyRotationEvent, Error>) -> bool {
        &&& self.same_except(after, room_id)
        &&& match r {
            Ok(event) => {
                &&& self.rooms().contains_key(room_id)
                &&& self.rooms()[room_id].rotated(now, self.interval(), after.rooms()[room_id])
                &&& event.room_id@ == room_id
                &&& event.new_key_id == self.rooms()[room_id].current_key.id + 1
                &&& event.previous_key_id == Some(self.rooms()[room_id].current_key.id)
            },
            Err(e) => if self.rooms().contains_key(room_id) {
                &&& !self.rooms()[room_id].can_rotate()
                &&& after.rooms()[room_id] == self.rooms()[room_id]
                &&& e.is_crypto(reason_rotation_failed())
            } else {
                e.is_crypto(reason_room_not_found(room_id))
            },
        }
    }

    /// Rotates `room_id` at `now`, due or not.
    ///
    /// An unknown room, and a room whose key number cannot grow, fail and
    /// change nothing.
    pub fn rotate_key_now_at(
        &mut self,
        room_id: &str,
        now: u64,
    ) -> (r: Result<KeyRotationEvent, Error>)
        requires
            old(self).wf(),
        ensures
            final(self).wf(),
            old(self).forced(room_id@, now, *final(self), r),
    {
        let interval = self.rotation_interval;
        match self.rooms.position(room_id) {
            None => Err(room_not_found(room_id)),
            Some(i) => {
                proof {
                    self.rooms.lemma_view_at(i as int);
                }
                let room = self.rooms.value_mut(i);
                let ids = Self::rotate_room_key(room, now, interval);
                proof {
                    self.lemma_updated_at(*old(self), i as int);
                }
                match ids {
                    Some((new_key_id, previous_id)) => Ok(
                        KeyRotationEvent {
                            room_id: room_id.to_owned(),
                            new_key_id,
                            previous_key_id: Some(previous_id),
                        },
                    ),
                    None => Err(Error::crypto("Failed to rotate key")),
                }
            },
        }
    }

    /// Rotates `room_id` at the current clock reading, due or not.
    pub fn rotate_key_now(&mut self, room_id: &str) -> (r: Result<KeyRotationEvent, Error>)
        requires
            old(self).wf(),
        ensures
            final(self).wf(),
            exists|now: u64| #[trigger] old(self).forced(room_id@, now, *final(self), r),
    {
        let now = wall_clock_ms();
        let r = self.rotate_key_now_at(room_id, now);
        assert(old(self).forced(room_id@, now, *self, r));
        r
    }

    /// Milliseconds from `now` to the next scheduled rotation of `room_id`,
    /// zero once it is due.
    pub fn time_until_rotation_at(&self, room_id: &str, now: u64) -> (ms: Option<u64>)
        requires
            self.wf(),
        ensures
            match ms {
                Some(t) => self.rooms().contains_key(room_id@) && t
                    == self.rooms()[room_id@].until_rotation(now),
                None => !self.rooms().contains_key(room_id@),
            },
    {
        match self.rooms.get(room_id) {
            Some(room) => Some(room.next_rotation.saturating_sub(now)),
            None => None,
        }
    }

    /// Time from the current clock reading to the next scheduled rotation of
    /// `room_id`, in whole milliseconds.
    pub fn time_until_rotation(&self, room_id: &str) -> (t: Option<Duration>)
        requires
            self.wf(),
        ensures
            match t {
                Some(d) => self.rooms().contains_key(room_id@) && exists|now: u64|
                    duration_millis(d) == #[trigger] self.rooms()[room_id@].until_rotation(now),
                None => !self.rooms().contains_key(room_id@),
            },
    {
        let now = wall_clock_ms();
        match self.time_until_rotation_at(room_id, now) {
            Some(ms) => {
                let d = duration_from_ms(ms);
                assert(duration_millis(d) == self.rooms()[room_id@].until_rotation(now));
                Some(d)
            },
            None => None,
        }
    }

    proof fn lemma_updated_at(self, before: Self, i: int)
        requires
            before.wf(),
            0 <= i < before.rooms.keys().len(),
            self.rooms.keys() == before.rooms.keys(),
            self.rooms.values().len() == before.rooms.values().len(),
            forall|j: int|
                0 <= j < before.rooms.values().len() && j != i ==> self.rooms.values()[j]
                    == before.rooms.values()[j],
            self.rotation_interval == before.rotation_interval,
        ensures
            self.wf(),
            before.same_except(self, before.rooms.keys()[i]),
            self.rooms()[before.rooms.keys()[i]] == self.rooms.values()[i],
            before.rooms()[before.rooms.keys()[i]] == before.rooms.values()[i],
    {
        self.rooms.lemma_view_at(i);
        before.rooms.lemma_view_at(i);
        assert(self.rooms().dom() =~= before.rooms().dom());
        assert forall|k: Seq<char>|
            before.rooms().contains_key(k) && k != before.rooms.keys()[i] implies self.rooms()[k]
            == before.rooms()[k] by {
            before.rooms.lemma_view_key(k);
            self.rooms.lemma_view_key(k);
        }
    }
}

/// Reason of the error returned when what was opened is no audio packet.
pub open spec fn reason_packet_unreadable() -> Seq<char> {
    "Failed to decode packet"@
}

/// Seals and opens audio packets with the keys of their rooms.
pub struct SecureAudioChannel {
    key_manager: SessionKeyManager,
}

impl SecureAudioChannel {
    /// The key manager underneath.
    pub closed spec fn manager(&self) -> SessionKeyManager {
        self.key_manager
    }

    /// The manager is well formed.
    pub open spec fn wf(&self) -> bool {
        self.manager().wf()
    }

    /// A channel without rooms that rotates keys every hour.
    pub fn new() -> (c: Self)
        ensures
            c.wf(),
            c.manager().rooms() == Map::<Seq<char>, RoomKeys>::empty(),
            c.manager().interval() == DEFAULT_KEY_ROTATION_INTERVAL_MS,
    {
        Self { key_manager: SessionKeyManager::new() }
    }

    /// A channel over a manager that is already set up.
    pub fn with_key_manager(key_manager: SessionKeyManager) -> (c: Self)
        ensures
            c.manager() == key_manager,
    {
        Self { key_manager }
    }

    /// Opens `room_id` under `initial_key`, numbered 1, at the current clock
    /// reading; a room of that name is replaced.
    pub fn create_room(&mut self, room_id: &str, initial_key: SessionKey) -> (id: u64)
        requires
            old(self).wf(),
        ensures
            final(self).wf(),
            id == 1,
            final(self).manager().interval() == old(self).manager().interval(),
            final(self).manager().rooms().dom() == old(self).manager().rooms().dom().insert(room_id@),
            exists|now: u64| #[trigger]
                final(self).manager().rooms()[room_id@].is_initial(
                    initial_key,
                    now,
                    old(self).manager().interval(),
                ),
            forall|k: Seq<char>|
                old(self).manager().rooms().contains_key(k) && k != room_id@
                    ==> final(self).manager().rooms()[k] == old(self).manager().rooms()[k],
    {
        self.key_manager.create_room(room_id, initial_key)
    }

    /// Opens `room_id` under `initial_key`, numbered 1, at `now`; a room of
    /// that name is replaced.
    pub fn create_room_at(&mut self, room_id: &str, initial_key: SessionKey, now: u64) -> (id: u64)
        requires
            old(self).wf(),
        ensures
            final(self).wf(),
            id == 1,
            final(self).manager().rooms().dom() == old(self).manager().rooms().dom().insert(room_id@),
            final(self).manager().interval() == old(self).manager().interval(),
            final(self).manager().rooms()[room_id@].is_initial(
                initial_key,
                now,
                old(self).manager().interval(),
            ),
            forall|k: Seq<char>|
                old(self).manager().rooms().contains_key(k) && k != room_id@
                    ==> final(self).manager().rooms()[k] == old(self).manager().rooms()[k],
    {
        self.key_manager.create_room_at(room_id, initial_key, now)
    }

    /// Closes `room_id`; the other rooms stay as they are.
    pub fn remove_room(&mut self, room_id: &str)
        requires
            old(self).wf(),
        ensures
            final(self).wf(),
            final(self).manager().rooms() == old(self).manager().rooms().remove(room_id@),
    {
        self.key_manager.remove_room(room_id);
    }

    /// What sealing `packet` at `now` makes of the channel and returns: what
    /// is sealed under the current key of the room is the wire form of the
    /// packet; the sealed packet carries the sequence number and the peer id
    /// of the packet, the number of the key, and `now` as its timestamp.
    pub open spec fn sealed_spec(
        &self,
        room_id: Seq<char>,
        packet: AudioPacketView,
        now: u64,
        after: Self,
        r: Result<EncryptedAudioPacket, Error>,
    ) -> bool {
        &&& self.manager().same_except(after.manager(), room_id)
        &&& match self.manager().rooms().contains_key(room_id) {
            false => r matches Err(e) && e.is_crypto(reason_room_not_found(room_id)),
            true => {
                let before = self.manager().rooms()[room_id];
                let then = after.manager().rooms()[room_id];
                match r {
                    Ok(sealed) => {
                        &&& sealed.sequence == packet.sequence
                        &&& sealed.peer_id@ == packet.peer_id
                        &&& sealed.timestamp == now
                        &&& sealed.key_id == before.current_key.id
                        &&& exists|m: EncryptedMessage|
                            m.nonce == sealed.nonce && m.ciphertext == sealed.encrypted_frame
                                && #[trigger] before.encrypt_spec(packet.wire(), now, then, Ok(m))
                    },
                    Err(e) => before.encrypt_spec(packet.wire(), now, then, Err(e)),
                }
            },
        }
    }

    /// What opening `encrypted_packet` at `now` makes of the channel and
    /// returns: the keys of the room decide on the sealed message that the
    /// packet carries, as [`RoomKeys::decrypt_spec`] says; what they open
    /// must be the wire form of an audio packet, else the call fails although
    /// the message counts as opened.
    pub open spec fn opened_spec(
        &self,
        room_id: Seq<char>,
        encrypted_packet: EncryptedAudioPacket,
        now: u64,
        after: Self,
        r: Result<AudioPacket, Error>,
    ) -> bool {
        &&& self.manager().same_except(after.manager(), room_id)
        &&& match self.manager().rooms().contains_key(room_id) {
            false => r matches Err(e) && e.is_crypto(reason_room_not_found(room_id)),
            true => exists|m: EncryptedMessage, opened: Result<Vec<u8>, Error>|
                {
                    &&& m.nonce == encrypted_packet.nonce
                    &&& m.ciphertext@ == encrypted_packet.encrypted_frame@
                    &&& #[trigger] self.manager().rooms()[room_id].decrypt_spec(
                        m,
                        now,
                        after.manager().rooms()[room_id],
                        opened,
                    )
                    &&& match opened {
                        Ok(plaintext) => match r {
                            Ok(p) => AudioPacketView::parse(plaintext@) == Some(p@),
                            Err(e) => AudioPacketView::parse(plaintext@) is None && e.is_crypto(
                                reason_packet_unreadable(),
                            ),
                        },
                        Err(e) => r matches Err(f) && f == e,
                    }
                },
        }
    }

    /// Seals `packet` at `now` under the current key of `room_id`.
    ///
    /// What is sealed is the wire form of the packet. The sealed packet
    /// carries the sequence number and the peer id of the packet, the number
    /// of the key, and `now` as its timestamp.
    pub fn encrypt_packet_at(
        &mut self,
        room_id: &str,
        packet: &AudioPacket,
        now: u64,
    ) -> (r: Result<EncryptedAudioPacket, Error>)
        requires
            old(self).wf(),
        ensures
            final(self).wf(),
            old(self).sealed_spec(room_id@, packet@, now, *final(self), r),
    {
        let key_id = match self.key_manager.get_current_key_id(room_id) {
            Some(id) => id,
            None => {
                return Err(room_not_found(room_id));
            },
        };
        let plaintext = match packet.encode() {
            Ok(p) => p,
            Err(e) => {
                return Err(e);
            },
        };
        let encrypted = match self.key_manager.encrypt_at(room_id, plaintext.as_slice(), now) {
            Ok(m) => m,
            Err(e) => {
                return Err(e);
            },
        };
        let ghost m = encrypted;
        let sealed = EncryptedAudioPacket::new_at(
            packet.sequence,
            packet.peer_id.clone(),
            encrypted.ciphertext,
            encrypted.nonce,
            key_id,
            now,
        );
        assert(m.nonce == sealed.nonce && m.ciphertext == sealed.encrypted_frame);
        Ok(sealed)
    }

    /// Seals `packet` at the current clock reading.
    pub fn encrypt_packet(
        &mut self,
        room_id: &str,
        packet: &AudioPacket,
    ) -> (r: Result<EncryptedAudioPacket, Error>)
        requires
            old(self).wf(),
        ensures
            final(self).wf(),
            exists|now: u64| #[trigger] old(self).sealed_spec(room_id@, packet@, now, *final(self), r),
    {
        let now = wall_clock_ms();
        let r = self.encrypt_packet_at(room_id, packet, now);
        assert(old(self).sealed_spec(room_id@, packet@, now, *self, r));
        r
    }

    /// Opens `encrypted_packet` at `now` with the keys of `room_id` and reads
    /// the audio packet in it.
    ///
    /// The keys of the room decide on the sealed message that the packet
    /// carries, as [`RoomKeys::decrypt_spec`] says. What they open must be
    /// the wire form of an audio packet, else the call fails although the
    /// message counts as opened.
    pub fn decrypt_packet_at(
        &mut self,
        room_id: &str,
        encrypted_packet: &EncryptedAudioPacket,
        now: u64,
    ) -> (r: Result<AudioPacket, Error>)
        requires
            old(self).wf(),
        ensures
            final(self).wf(),
            old(self).opened_spec(room_id@, *encrypted_packet, now, *final(self), r),
    {
        let message = encrypted_packet.to_encrypted_message();
        let opened = self.key_manager.decrypt_at(room_id, &message, now);
        let ghost witness = opened;
        let r = match opened {
            Ok(plaintext) => match AudioPacket::decode(plaintext.as_slice()) {
                Ok(p) => Ok(p),
                Err(_) => Err(Error::crypto("Failed to decode packet")),
            },
            Err(e) => Err(e),
        };
        proof {
            if old(self).manager().rooms().contains_key(room_id@) {
                assert(old(self).manager().rooms()[room_id@].decrypt_spec(
                    message,
                    now,
                    self.manager().rooms()[room_id@],
                    witness,
                ));
            }
        }
        r
    }

    /// Opens `encrypted_packet` at the current clock reading.
    pub fn decrypt_packet(
        &mut self,
        room_id: &str,
        encrypted_packet: &EncryptedAudioPacket,
    ) -> (r: Result<AudioPacket, Error>)
        requires
            old(self).wf(),
        ensures
            final(self).wf(),
            exists|now: u64| #[trigger]
                old(self).opened_spec(room_id@, *encrypted_packet, now, *final(self), r),
    {
        let now = wall_clock_ms();
        let r = self.decrypt_packet_at(room_id, encrypted_packet, now);
        assert(old(self).opened_spec(room_id@, *encrypted_packet, now, *self, r));
        r
    }

    /// Rotates the key of every room that is due at the current clock reading.
    pub fn check_rotation(&mut self) -> (events: Vec<KeyRotationEvent>)
        requires
            old(self).wf(),
        ensures
            final(self).wf(),
            exists|now: u64| #[trigger]
                old(self).manager().scanned(now, final(self).manager(), events@),
    {
        let now = wall_clock_ms();
        let events = self.key_manager.check_rotation_at(now);
        assert(old(self).manager().scanned(now, self.manager(), events@));
        events
    }

    /// Rotates the key of every room that is due at `now`.
    pub fn check_rotation_at(&mut self, now: u64) -> (events: Vec<KeyRotationEvent>)
        requires
            old(self).wf(),
        ensures
            final(self).wf(),
            old(self).manager().scanned(now, final(self).manager(), events@),
    {
        self.key_manager.check_rotation_at(now)
    }

    /// Rotates the key of `room_id` at the current clock reading, due or not.
    pub fn rotate_key_now(&mut self, room_id: &str) -> (r: Result<KeyRotationEvent, Error>)
        requires
            old(self).wf(),
        ensures
            final(self).wf(),
            exists|now: u64| #[trigger]
                old(self).manager().forced(room_id@, now, final(self).manager(), r),
    {
        let now = wall_clock_ms();
        let r = self.key_manager.rotate_key_now_at(room_id, now);
        assert(old(self).manager().forced(room_id@, now, self.manager(), r));
        r
    }

    /// The number of the current key of `room_id`.
    pub fn get_current_key_id(&self, room_id: &str) -> (id: Option<u64>)
        requires
            self.wf(),
        ensures
            match id {
                Some(n) => self.manager().rooms().contains_key(room_id@) && n
                    == self.manager().rooms()[room_id@].current_key.id,
                None => !self.manager().rooms().contains_key(room_id@),
            },
    {
        self.key_manager.get_current_key_id(room_id)
    }

    /// Whether `room_id` is open.
    pub fn has_room(&self, room_id: &str) -> (b: bool)
        requires
            self.wf(),
        ensures
            b == self.manager().rooms().contains_key(room_id@),
    {
        self.key_manager.has_room(room_id)
    }

    /// Number of open rooms.
    pub fn room_count(&self) -> (n: usize)
        requires
            self.wf(),
        ensures
            n == self.manager().rooms().dom().len(),
    {
        self.key_manager.room_count()
    }
}

impl Default for SecureAudioChannel {
    fn default() -> (c: Self)
        ensures
            c.wf(),
            c.manager().rooms() == Map::<Seq<char>, RoomKeys>::empty(),
            c.manager().interval() == DEFAULT_KEY_ROTATION_INTERVAL_MS,
    {
        Self::new()
    }
}

} // verus!