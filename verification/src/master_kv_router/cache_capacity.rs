//! Cache capacity set aside for leased replicas.
//!
//! A node's replica cache may use a share of the node's memory, less what leased replicas occupy.
//! Resizing the cache itself is done by the caller, between the two functions here.

use crate::cluster_manager::NodeIDString;
use crate::dash::{numbers_get, numbers_insert, numbers_new};
use crate::error::{KvError, KvErrorOf, KvResult, UnreachableError, UnreachableErrorOf};
use crate::text;
use dashmap::DashMap;
use vstd::prelude::*;

verus! {

/// What adjusting a node's reservation asks for.
pub enum CapacityStep {
    /// It is over.
    Done(KvResult<()>),
    /// The node's cache is to be resized.
    SetMaxCapacity { new_capacity: u64 },
}

/// What came of resizing a node's cache.
pub enum CacheResize {
    Resized,
    Refused { new_capacity: u64, error: String },
    NoController,
}

/// Per-node total bytes reserved for leased replicas. They are subtracted from the base capacity of
/// each node's cache.
pub struct LeaseReservedBytes {
    reserved: DashMap<NodeIDString, u64>,
}

impl View for LeaseReservedBytes {
    type V = Map<Seq<char>, u64>;

    closed spec fn view(&self) -> Map<Seq<char>, u64> {
        crate::dash::numbers_of(self.reserved)
    }
}

/// The bytes reserved on a node.
pub open spec fn reserved_on(reserved: Map<Seq<char>, u64>, node_id: Seq<char>) -> u64 {
    match super::placement_metrics::counter_at(reserved, node_id) {
        Some(total) => total,
        None => 0,
    }
}

/// `total + delta`, modulo 2^64 as the counter is kept.
pub open spec fn shifted(total: u64, delta: int) -> u64 {
    ((total + delta) % 0x1_0000_0000_0000_0000) as u64
}

/// `base - reserved`, but not below zero.
pub open spec fn capacity_left(base: u64, reserved: u64) -> u64 {
    if reserved <= base {
        (base - reserved) as u64
    } else {
        0
    }
}

/// The reservations after those on one node changed by `delta`.
pub open spec fn with_shift(reserved: Map<Seq<char>, u64>, node_id: Seq<char>, delta: int) -> Map<
    Seq<char>,
    u64,
> {
    reserved.insert(node_id, shifted(reserved_on(reserved, node_id), delta))
}

/// The error for a node without memory.
pub open spec fn no_space_to_adjust(node_id: Seq<char>) -> KvErrorOf<Seq<char>> {
    KvErrorOf::Unreachable(
        UnreachableErrorOf::OwnerNoSeg {
            detail: "node_id="@ + node_id
                + " has no segment (node_space_size=0) while adjusting cache capacity"@,
        },
    )
}

/// The error for a cache that could not be resized.
pub open spec fn resize_error(node_id: Seq<char>, resize: CacheResize) -> Option<
    KvErrorOf<Seq<char>>,
> {
    match resize {
        CacheResize::Resized => None,
        CacheResize::Refused { new_capacity, error } => Some(
            KvErrorOf::Unreachable(
                UnreachableErrorOf::RpcDecodeError {
                    rpc_input_json: "moka.set_max_capacity failed: node_id="@ + node_id
                        + ", new_capacity="@ + text::decimal(new_capacity as nat) + ", err="@
                        + error@,
                },
            ),
        ),
        CacheResize::NoController => Some(
            KvErrorOf::Unreachable(
                UnreachableErrorOf::OwnerNoSeg {
                    detail: "node_id="@ + node_id + " cache_controller not found"@,
                },
            ),
        ),
    }
}

fn shift(total: u64, delta: i64) -> (sum: u64)
    requires
        delta > i64::MIN,
    ensures
        sum == shifted(total, delta as int),
{
    if delta >= 0 {
        total.wrapping_add(delta as u64)
    } else {
        total.wrapping_sub((-delta) as u64)
    }
}

impl LeaseReservedBytes {
    pub fn new() -> (reserved: Self)
        ensures
            reserved@ == Map::<Seq<char>, u64>::empty(),
    {
        LeaseReservedBytes { reserved: numbers_new() }
    }

    fn total(&self, node_id: &str) -> (total: u64)
        ensures
            total == reserved_on(self@, node_id@),
    {
        match numbers_get(&self.reserved, node_id) {
            Some(total) => total,
            None => 0,
        }
    }

    /// Adjusts a node's reservation by `delta_bytes`: a positive number reserves capacity, a
    /// negative one gives it back. `node_space_size` is the node's memory and `base_capacity` the
    /// share of it that the cache may use.
    pub fn begin_adjustment(
        &mut self,
        node_id: &str,
        delta_bytes: i64,
        node_space_size: u64,
        base_capacity: u64,
    ) -> (step: CapacityStep)
        requires
            delta_bytes > i64::MIN,
        ensures
            if node_space_size == 0 {
                &&& step matches CapacityStep::Done(Err(e)) && e@ == no_space_to_adjust(node_id@)
                &&& final(self)@ == old(self)@.insert(node_id@, reserved_on(old(self)@, node_id@))
            } else {
                &&& final(self)@ == with_shift(old(self)@, node_id@, delta_bytes as int)
                &&& step == (CapacityStep::SetMaxCapacity {
                    new_capacity: capacity_left(base_capacity, reserved_on(final(self)@, node_id@)),
                })
            },
    {
        let before: u64 = self.total(node_id);
        if node_space_size == 0 {
            numbers_insert(&mut self.reserved, node_id.to_owned(), before);
            let detail = "node_id=".to_owned().concat(node_id).concat(
                " has no segment (node_space_size=0) while adjusting cache capacity",
            );
            return CapacityStep::Done(
                Err(KvError::Unreachable(UnreachableError::OwnerNoSeg { detail })),
            );
        }
        let total: u64 = shift(before, delta_bytes);
        numbers_insert(&mut self.reserved, node_id.to_owned(), total);
        CapacityStep::SetMaxCapacity { new_capacity: base_capacity.saturating_sub(total) }
    }

    /// Takes what came of resizing the cache. If it failed, the reservation is undone.
    pub fn finish_adjustment(
        &mut self,
        node_id: &str,
        delta_bytes: i64,
        resize: CacheResize,
    ) -> (result: KvResult<()>)
        requires
            delta_bytes > i64::MIN,
        ensures
            match resize_error(node_id@, resize) {
                None => result is Ok && final(self)@ == old(self)@,
                Some(error) => {
                    &&& result matches Err(e) && e@ == error
                    &&& final(self)@ == with_shift(old(self)@, node_id@, -(delta_bytes as int))
                },
            },
    {
        let error = match resize {
            CacheResize::Resized => {
                return Ok(());
            },
            CacheResize::Refused { new_capacity, error } => {
                let mut text = "moka.set_max_capacity failed: node_id=".to_owned();
                text.append(node_id);
                text.append(", new_capacity=");
                text::append_u64(&mut text, new_capacity);
                text.append(", err=");
                text.append(error.as_str());
                UnreachableError::RpcDecodeError { rpc_input_json: text }
            },
            CacheResize::NoController => {
                let detail = "node_id=".to_owned().concat(node_id).concat(
                    " cache_controller not found",
                );
                UnreachableError::OwnerNoSeg { detail }
            },
        };
        let before: u64 = self.total(node_id);
        numbers_insert(&mut self.reserved, node_id.to_owned(), shift(before, -delta_bytes));
        Err(KvError::Unreachable(error))
    }
}

/// Giving back what was reserved restores the reservation.
pub proof fn law_release_restores_reservation(total: u64, delta: int)
    ensures
        shifted(shifted(total, delta), -delta) == total,
{
    let m: int = 0x1_0000_0000_0000_0000;
    let sum = (total + delta) % m;
    assert(((sum + -delta) - total) % m == 0) by {
        vstd::arithmetic::div_mod::lemma_fundamental_div_mod(total + delta, m);
        let q = (total + delta) / m;
        assert(sum + -delta - total == -q * m) by (nonlinear_arith)
            requires
                total + delta == m * q + sum,
        ;
        vstd::arithmetic::div_mod::lemma_mod_multiples_basic(-q, m);
    }
    vstd::arithmetic::div_mod::lemma_fundamental_div_mod((sum + -delta) - total, m);
    let k = ((sum + -delta) - total) / m;
    assert(sum + -delta == m * k + total);
    vstd::arithmetic::div_mod::lemma_fundamental_div_mod_converse(
        sum + -delta,
        m,
        k,
        total as int,
    );
}

} // verus!
