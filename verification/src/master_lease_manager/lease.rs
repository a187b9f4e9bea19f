//! One lease.

use crate::error::{LeaseMgrError, LeaseMgrErrorOf};
use crate::master_kv_router::put::PutIDForAKey;
use crate::text;
use dashmap::DashMap;
use vstd::prelude::*;

verus! {

/// Lease ID type
pub type LeaseID = u64;

/// Lease TTL in seconds
pub type LeaseSecTTl = u64;

/// Key associated with a lease
pub type LeaseKey = String;

/// Lease state
#[derive(Debug, Clone, Copy, PartialEq, Eq, Structural)]
pub enum LeaseState {
    /// Lease is active and valid
    Active,
    /// Lease is expired
    Expired,
}

/// Lease attributes for validation
#[derive(Debug, Clone, Copy)]
pub struct LeaseAttributes {
    pub id: LeaseID,
    pub ttl: LeaseSecTTl,
    pub keys_count: usize,
    pub state: LeaseState,
}

/// The keys that a map holds, with the put that each was attached by.
pub uninterp spec fn lease_keys(map: DashMap<String, (u64, u32)>) -> Map<Seq<char>, (u64, u32)>;

/// `DashMap::new` makes a map that holds nothing.
#[verifier::external_body]
fn keys_new() -> (map: DashMap<String, (u64, u32)>)
    ensures
        (lease_keys(map) == Map::<Seq<char>, (u64, u32)>::empty()),
{
    DashMap::new()
}

/// `DashMap::insert` stores the value under the key, in place of an earlier one.
#[verifier::external_body]
fn keys_insert(map: &mut DashMap<String, (u64, u32)>, key: String, put_id: (u64, u32))
    ensures
        lease_keys(*final(map)) == lease_keys(*old(map)).insert(key@, put_id),
{
    map.insert(key, put_id);
}

/// `DashMap::len` is the number of keys.
#[verifier::external_body]
fn keys_len(map: &DashMap<String, (u64, u32)>) -> (len: usize)
    ensures
        len == lease_keys(*map).len(),
{
    map.len()
}

/// `DashMap::iter` walks every entry once, in an order that is not specified.
#[verifier::external_body]
fn keys_entries(map: &DashMap<String, (u64, u32)>) -> (entries: Vec<(String, (u64, u32))>)
    ensures
        lists_entries(entries@, lease_keys(*map)),
{
    map.iter().map(|entry| (entry.key().clone(), *entry.value())).collect()
}

/// `entries` lists each entry of `map` once.
pub open spec fn lists_entries(
    entries: Seq<(String, (u64, u32))>,
    map: Map<Seq<char>, (u64, u32)>,
) -> bool {
    &&& forall|i: int|
        0 <= i < entries.len() ==> map.contains_key((#[trigger] entries[i]).0@) && map[entries[i].0@]
            == entries[i].1
    &&& forall|key: Seq<char>| #[trigger]
        map.contains_key(key) ==> exists|i: int| 0 <= i < entries.len() && entries[i].0@ == key
    &&& forall|i: int, j: int| 0 <= i < j < entries.len() ==> entries[i].0@ != entries[j].0@
}

/// Individual lease instance
pub struct Lease {
    /// Unique lease identifier
    pub id: LeaseID,
    /// Time-to-live in seconds
    pub ttl: LeaseSecTTl,
    /// Current state of the lease
    pub state: LeaseState,
    /// Keys associated with this lease with put_id information
    pub keys: DashMap<LeaseKey, PutIDForAKey>,
    /// Expiration time, in milliseconds
    pub expiration_time: u64,
}

/// Model of [`Lease`].
pub struct LeaseModel {
    pub id: LeaseID,
    pub ttl: LeaseSecTTl,
    pub state: LeaseState,
    pub keys: Map<Seq<char>, PutIDForAKey>,
    pub expiration_time: u64,
}

impl View for Lease {
    type V = LeaseModel;

    open spec fn view(&self) -> LeaseModel {
        LeaseModel {
            id: self.id,
            ttl: self.ttl,
            state: self.state,
            keys: lease_keys(self.keys),
            expiration_time: self.expiration_time,
        }
    }
}

/// `ttl` seconds after `now`, or the largest time where that does not fit.
pub open spec fn saturating_expiration(now: u64, ttl: LeaseSecTTl) -> u64 {
    if now + ttl * 1000 > u64::MAX {
        u64::MAX
    } else {
        (now + ttl * 1000) as u64
    }
}

impl LeaseModel {
    /// A lease granted at `now`.
    pub open spec fn granted(id: LeaseID, ttl: LeaseSecTTl, now: u64) -> LeaseModel {
        LeaseModel {
            id,
            ttl,
            state: LeaseState::Active,
            keys: Map::empty(),
            expiration_time: saturating_expiration(now, ttl),
        }
    }

    /// The seconds that a refresh adds: the custom TTL, or else the lease's own.
    pub open spec fn refresh_ttl(self, custom_ttl: Option<u64>) -> u64 {
        match custom_ttl {
            Some(ttl) => ttl,
            None => self.ttl,
        }
    }

    /// The time that a refresh at `now` would set fits.
    pub open spec fn can_refresh(self, custom_ttl: Option<u64>, now: u64) -> bool {
        self.state == LeaseState::Active ==> now + self.refresh_ttl(custom_ttl) * 1000 <= u64::MAX
    }

    /// A refresh at `now`, and what it returns.
    pub open spec fn refreshed(self, custom_ttl: Option<u64>, now: u64) -> (
        LeaseModel,
        Result<(), LeaseMgrErrorOf<Seq<char>>>,
    ) {
        if self.state == LeaseState::Active {
            (
                LeaseModel {
                    expiration_time: (now + self.refresh_ttl(custom_ttl) * 1000) as u64,
                    ..self
                },
                Ok(()),
            )
        } else {
            (
                self,
                Err(
                    LeaseMgrErrorOf::LeaseExpired {
                        lease_id: self.id,
                        message: "Lease is not in Active state"@,
                    },
                ),
            )
        }
    }

    /// Attaching a key, and what it returns.
    pub open spec fn attached(self, key: Seq<char>, put_id: PutIDForAKey) -> (
        LeaseModel,
        Result<(), LeaseMgrErrorOf<Seq<char>>>,
    ) {
        if self.state == LeaseState::Active {
            (LeaseModel { keys: self.keys.insert(key, put_id), ..self }, Ok(()))
        } else {
            (
                self,
                Err(
                    LeaseMgrErrorOf::LeaseExpired {
                        lease_id: self.id,
                        message: "Lease is not active"@,
                    },
                ),
            )
        }
    }
}

impl Lease {
    /// Create a new lease at the time `now`.
    pub fn new(id: LeaseID, ttl: LeaseSecTTl, now: u64) -> (lease: Self)
        ensures
            lease@ == LeaseModel::granted(id, ttl, now),
    {
        let expiration_time: u64 = match ttl.checked_mul(1000) {
            Some(ttl_ms) => now.saturating_add(ttl_ms),
            None => u64::MAX,
        };
        Lease { id, ttl, state: LeaseState::Active, keys: keys_new(), expiration_time }
    }

    /// Refresh the lease (extend expiration time) with optional custom TTL
    ///
    /// # Arguments
    /// * `custom_ttl` - Optional custom TTL in seconds. If None, uses the lease's default TTL
    pub fn refresh(&mut self, custom_ttl: Option<u64>, now: u64) -> (result: Result<
        (),
        LeaseMgrError,
    >)
        requires
            old(self)@.can_refresh(custom_ttl, now),
        ensures
            (final(self)@, crate::error::lease_result_view(result)) == old(self)@.refreshed(
                custom_ttl,
                now,
            ),
    {
        if self.state != LeaseState::Active {
            return Err(
                LeaseMgrError::LeaseExpired {
                    lease_id: self.id,
                    message: "Lease is not in Active state".to_owned(),
                },
            );
        }
        let ttl_to_use: u64 = match custom_ttl {
            Some(ttl) => ttl,
            None => self.ttl,
        };
        self.expiration_time = now + (ttl_to_use * 1000);
        Ok(())
    }

    /// Expire the lease
    pub fn expire(&mut self) -> (result: Result<(), LeaseMgrError>)
        ensures
            old(self)@.state == LeaseState::Active ==> result is Ok && final(self)@ == (LeaseModel {
                state: LeaseState::Expired,
                ..old(self)@
            }),
            old(self)@.state != LeaseState::Active ==> final(self)@ == old(self)@
                && crate::error::lease_result_view(result) == Err::<(), LeaseMgrErrorOf<Seq<char>>>(
                LeaseMgrErrorOf::LeaseExpired {
                    lease_id: old(self)@.id,
                    message: "Lease is already expired or revoked"@,
                },
            ),
    {
        if self.state != LeaseState::Active {
            return Err(
                LeaseMgrError::LeaseExpired {
                    lease_id: self.id,
                    message: "Lease is already expired or revoked".to_owned(),
                },
            );
        }
        self.state = LeaseState::Expired;
        Ok(())
    }

    /// Attach a key to this lease with put_id information
    pub fn attach_key(&mut self, key: LeaseKey, put_id: PutIDForAKey) -> (result: Result<
        (),
        LeaseMgrError,
    >)
        ensures
            (final(self)@, crate::error::lease_result_view(result)) == old(self)@.attached(
                key@,
                put_id,
            ),
    {
        if self.state != LeaseState::Active {
            return Err(
                LeaseMgrError::LeaseExpired {
                    lease_id: self.id,
                    message: "Lease is not active".to_owned(),
                },
            );
        }
        keys_insert(&mut self.keys, key, put_id);
        Ok(())
    }

    /// Get all keys with their put_id information
    pub fn get_keys_with_put_ids(&self) -> (entries: Vec<(LeaseKey, PutIDForAKey)>)
        ensures
            lists_entries(entries@, self@.keys),
    {
        keys_entries(&self.keys)
    }

    /// Get lease state
    pub fn get_state(&self) -> (state: LeaseState)
        ensures
            state == self@.state,
    {
        self.state
    }

    /// Get lease attributes (id, ttl, keys_count)
    pub fn get_attributes(&self) -> (attributes: LeaseAttributes)
        ensures
            attributes.id == self@.id,
            attributes.ttl == self@.ttl,
            attributes.keys_count == self@.keys.len(),
            attributes.state == self@.state,
    {
        LeaseAttributes {
            id: self.id,
            ttl: self.ttl,
            keys_count: keys_len(&self.keys),
            state: self.get_state(),
        }
    }

    /// Debug string representation (only small fields, not the keys)
    pub fn dbg_str(&self) -> (text: String)
        ensures
            text@ == "Lease { id: "@ + text::decimal(self@.id as nat) + ", ttl: "@ + text::decimal(
                self@.ttl as nat,
            ) + "s, state: "@ + (if self@.state == LeaseState::Active {
                "Active"@
            } else {
                "Expired"@
            }) + ", keys_count: "@ + text::decimal(self@.keys.len()) + ", expiration: "@
                + text::decimal(self@.expiration_time as nat) + " }"@,
    {
        let mut text = "Lease { id: ".to_owned();
        text::append_u64(&mut text, self.id);
        text.append(", ttl: ");
        text::append_u64(&mut text, self.ttl);
        text.append("s, state: ");
        match self.state {
            LeaseState::Active => text.append("Active"),
            LeaseState::Expired => text.append("Expired"),
        }
        text.append(", keys_count: ");
        text::append_u64(&mut text, keys_len(&self.keys) as u64);
        text.append(", expiration: ");
        text::append_u64(&mut text, self.expiration_time);
        text.append(" }");
        text
    }

    /// Get remaining TTL in milliseconds at the time `now`
    pub fn get_remaining_ttl_ms(&self, now: u64) -> (remaining: u64)
        ensures
            remaining == if self@.state == LeaseState::Active && now < self@.expiration_time {
                self@.expiration_time - now
            } else {
                0
            },
    {
        if self.state != LeaseState::Active {
            return 0;
        }
        if now >= self.expiration_time {
            0
        } else {
            self.expiration_time - now
        }
    }

    /// Get expiration time in milliseconds
    pub fn get_expiration_time(&self) -> (time: u64)
        ensures
            time == self@.expiration_time,
    {
        self.expiration_time
    }
}

} // verus!
