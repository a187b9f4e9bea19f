//! The cluster test: what it asks for is what is run, and what it sees is judged as it is.

use crate::config::{ClientConfig, ProtocolType, TransferEngineType};
use crate::kv_test;
use crate::kv_test::checks::{self, GetOutcome};
use crate::kv_test::probes::{self, LaneProbeTrace};
use crate::kv_test::recovery::{self, LifetimeEvent};
use crate::kv_test::rounds::{self, KvTestClientOptions, KvTestRoundOptions, KvTestRoundProfile};
use crate::kv_test::script;
use crate::laws::texts;
use crate::master_kv_router::routes::KvRouteInfo;
use crate::startup::{self, RdmaControlView, TransferBackendActivationMode};
use crate::text;
use vstd::prelude::*;

verus! {

/// Each replica on a node that is still there counts once.
pub proof fn law_living_replicas_are_counted(replicas: Seq<KvRouteInfo>, marks: Seq<bool>)
    ensures
        checks::active_replicas(replicas, marks) == replicas.filter(
            |replica: KvRouteInfo| crate::laws::gets::lives(replica, marks),
        ).len(),
    decreases replicas.len(),
{
    reveal(Seq::filter);
    if replicas.len() > 0 {
        law_living_replicas_are_counted(replicas.drop_last(), marks);
    }
}

/// Each get that asked another node counts once.
pub proof fn law_remote_gets_are_counted(outcomes: Seq<GetOutcome>)
    ensures
        checks::remote_count(outcomes) == outcomes.filter(
            |outcome: GetOutcome| outcome matches GetOutcome::Found { remote, .. } && remote,
        ).len(),
    decreases outcomes.len(),
{
    reveal(Seq::filter);
    if outcomes.len() > 0 {
        law_remote_gets_are_counted(outcomes.drop_last());
    }
}

/// The items of a list are those that hold more than space, each without the space around it.
pub proof fn law_items_of_a_list_are_kept(items: Seq<Seq<char>>, item: Seq<char>)
    ensures
        kv_test::listed(items).contains(item) <==> item.len() > 0 && exists|i: int|
            0 <= i < items.len() && text::trimmed(#[trigger] items[i]) == item,
        kv_test::listed(items).len() <= items.len(),
    decreases items.len(),
{
    let kept = kv_test::listed(items);
    if items.len() > 0 {
        let fewer = items.drop_last();
        let before = kv_test::listed(fewer);
        law_items_of_a_list_are_kept(fewer, item);
        let last = text::trimmed(items.last());
        if before.contains(item) {
            let k = choose|k: int| 0 <= k < before.len() && before[k] == item;
            assert(kept[k] == item);
            let i = choose|i: int| 0 <= i < fewer.len() && text::trimmed(#[trigger] fewer[i]) == item;
            assert(text::trimmed(items[i]) == item);
        }
        if last == item && item.len() > 0 {
            assert(kept[kept.len() - 1] == item);
            assert(text::trimmed(items[items.len() - 1]) == item);
        }
        if kept.contains(item) && !before.contains(item) {
            let k = choose|k: int| 0 <= k < kept.len() && kept[k] == item;
            if k < before.len() {
                assert(before[k] == item);
            }
            assert(text::trimmed(items[items.len() - 1]) == item);
        }
        if exists|i: int| 0 <= i < items.len() && text::trimmed(#[trigger] items[i]) == item {
            let i = choose|i: int| 0 <= i < items.len() && text::trimmed(#[trigger] items[i]) == item;
            if i < fewer.len() {
                assert(text::trimmed(fewer[i]) == item);
            }
        }
    }
}

/// Each item is kept once, and none is lost.
pub proof fn law_items_are_kept_once(items: Seq<Seq<char>>, item: Seq<char>)
    ensures
        kv_test::first_occurrences(items).contains(item) <==> items.contains(item),
        kv_test::first_occurrences(items).no_duplicates(),
    decreases items.len(),
{
    let kept = kv_test::first_occurrences(items);
    if items.len() > 0 {
        let fewer = items.drop_last();
        let before = kv_test::first_occurrences(fewer);
        law_items_are_kept_once(fewer, item);
        law_items_are_kept_once(fewer, items.last());
        if before.contains(item) {
            let k = choose|k: int| 0 <= k < before.len() && before[k] == item;
            assert(kept[k] == item);
            let i = choose|i: int| 0 <= i < fewer.len() && fewer[i] == item;
            assert(items[i] == item);
        }
        if items.last() == item && !before.contains(item) {
            assert(kept[before.len() as int] == item);
            assert(items[items.len() - 1] == item);
        }
        if kept.contains(item) && !before.contains(item) {
            let k = choose|k: int| 0 <= k < kept.len() && kept[k] == item;
            if k < before.len() {
                assert(before[k] == item);
            }
        }
        if items.contains(item) {
            let i = choose|i: int| 0 <= i < items.len() && items[i] == item;
            if i < fewer.len() {
                assert(fewer[i] == item);
            }
        }
    }
}

/// A run's name holds letters, digits, underscores and hyphens; each of its own stays, and no
/// character is lost.
pub proof fn law_run_names_are_plain(raw: Seq<char>, i: int)
    requires
        0 <= i < raw.len(),
    ensures
        ({
            let name = kv_test::scope_text(raw);
            let plain = 'a' <= raw[i] <= 'z' || 'A' <= raw[i] <= 'Z' || '0' <= raw[i] <= '9'
                || raw[i] == '_' || raw[i] == '-';
            &&& name.len() == raw.len()
            &&& plain ==> name[i] == raw[i]
            &&& !plain ==> name[i] == '_'
        }),
{
}

/// A number of workers, and the port of the first, are read as they were written. Zero workers are
/// none, and the port of the last has to be a port.
pub proof fn law_settings_are_read(count: u16, base: u16)
    ensures
        kv_test::worker_count_setting(text::decimal(count as nat)) == Ok::<
            Option<int>,
            kv_test::SettingError,
        >(
            if count == 0 {
                None
            } else {
                Some(count as int)
            },
        ),
        kv_test::port_base_setting(text::decimal(base as nat), count) is Ok <==> base + count
            <= 65536,
        kv_test::port_base_setting(text::decimal(base as nat), count) matches Ok(port) ==> port
            == Some(base as int),
        kv_test::worker_count_setting(Seq::empty()) == Ok::<Option<int>, kv_test::SettingError>(
            None,
        ),
        kv_test::port_base_setting(Seq::empty(), count) is Err,
{
    texts::law_written_lanes_are_read(count);
    texts::law_written_lanes_are_read(base);
    texts::lemma_decimal(count as nat);
    texts::lemma_decimal(base as nat);
}

/// The value of a probe has a quarter of a mebibyte, and repeats itself after its pattern.
pub proof fn law_probe_values_repeat_their_pattern(tag: Seq<char>, value: Seq<u8>, i: int)
    requires
        probes::is_probe_value(tag, value),
        0 <= i,
        i + probes::probe_pattern(tag).len() < value.len(),
        probes::probe_pattern(tag).len() > 0,
    ensures
        value.len() == 262144,
        value[i + probes::probe_pattern(tag).len()] == value[i],
        i < probes::probe_pattern(tag).len() ==> value[i] == probes::probe_pattern(tag)[i],
{
    let n = probes::probe_pattern(tag).len() as int;
    assert((i + n) % n == i % n) by (nonlinear_arith)
        requires
            n > 0,
            i >= 0,
    ;
    if i < n {
        assert(i % n == i) by (nonlinear_arith)
            requires
                0 <= i < n,
        ;
    }
}

/// A lane probe is satisfied exactly if the value went from a side worker here to the side worker of
/// the other owner on the same lane.
pub proof fn law_lanes_have_to_meet(trace: LaneProbeTrace, remote_owner_id: Seq<char>)
    ensures
        probes::lane_probe_wait(trace, remote_owner_id) is None <==> {
            let here = if trace.external_side_transfer_lane_idx is Some {
                trace.external_side_transfer_lane_idx
            } else {
                trace.local_side_lane
            };
            &&& trace.owner_put_transfer_peer_id is Some
            &&& remote_owner_id.is_prefix_of(trace.owner_put_transfer_peer_id->0@)
            &&& (remote_owner_id + "__side_"@).is_prefix_of(trace.owner_put_transfer_peer_id->0@)
            &&& trace.external_side_transfer_peer_id is Some
            &&& here is Some
            &&& trace.remote_lane == here
        },
{
}

/// While the owner is away a get does not end; before the put nothing is found; and after it the value
/// that was put. Everything else is a fault.
pub proof fn law_lifetimes_are_judged(event: LifetimeEvent, value: Seq<u8>)
    ensures
        recovery::lifetime_fault(event, value) is None <==> match event {
            LifetimeEvent::WithoutOwner { ended } => !ended,
            LifetimeEvent::BeforePut(seen) => seen matches Some(Ok(None)),
            LifetimeEvent::AfterPut(seen) => seen matches Ok(Some(held)) && held@ == value,
        },
{
}

/// An address is the same with and without its scheme.
pub proof fn law_schemes_are_taken_off(address: Seq<char>)
    requires
        !"http://"@.is_prefix_of(address),
        !"https://"@.is_prefix_of(address),
    ensures
        recovery::without_scheme("http://"@ + address) == address,
        recovery::without_scheme("https://"@ + address) == address,
        recovery::without_scheme(address) == address,
{
    reveal_strlit("http://");
    reveal_strlit("https://");
    let plain = "http://"@ + address;
    let secured = "https://"@ + address;
    assert("http://"@.is_prefix_of(plain));
    assert(plain.skip("http://"@.len() as int) =~= address);
    assert("https://"@.is_prefix_of(secured));
    assert(secured.skip("https://"@.len() as int) =~= address);
    assert(secured[4] == 's' && "http://"@[4] == ':');
    assert(!"http://"@.is_prefix_of(secured)) by {
        if "http://"@.is_prefix_of(secured) {
            assert(secured.subrange(0, "http://"@.len() as int)[4] == secured[4]);
        }
    }
}

/// A round without RDMA transfers between the nodes themselves; the others use the devices, whatever
/// the control plane says.
pub proof fn law_rounds_transfer_as_they_are_named(
    options: KvTestClientOptions,
    profile: KvTestRoundProfile,
    devices: Seq<String>,
)
    requires
        rounds::transfers_as(options, profile, devices),
    ensures
        profile == KvTestRoundProfile::P2pOnly ==> {
            &&& options.protocol_config->0.protocol_type == ProtocolType::Tcp
            &&& options.transfer_engine == Some(TransferEngineType::P2p)
            &&& options.rdma_control_init is Some
            &&& startup::rdma_control_view(options.rdma_control_init->0) is Disabled
            &&& options.transfer_backend_activation_mode is None
        },
        profile != KvTestRoundProfile::P2pOnly ==> {
            &&& options.protocol_config->0.protocol_type == ProtocolType::Rdma
            &&& options.protocol_config->0.rdma_device_names is Some
            &&& options.protocol_config->0.rdma_device_names->0@ == startup::comma_joined(devices)
            &&& options.transfer_engine == Some(TransferEngineType::Closed)
            &&& options.rdma_control_init is Some
            &&& startup::rdma_control_view(options.rdma_control_init->0)
                == RdmaControlView::Explicit(devices)
            &&& options.transfer_backend_activation_mode == Some(
                TransferBackendActivationMode::TestForceEnableBypassRdmaControl,
            )
        },
        options.enable_transfer_rpc_fast_path == Some(
            profile == KvTestRoundProfile::RdmaTransferWithRpc,
        ),
{
}

/// The owners of a round give memory, of the machine alone.
pub proof fn law_owners_of_a_round_give_memory(
    options: KvTestClientOptions,
    profile: KvTestRoundProfile,
    devices: Seq<String>,
)
    requires
        rounds::owner_options(options, profile, devices),
    ensures
        options.contribute_to_cluster_pool_size is Some,
        options.contribute_to_cluster_pool_size->0.dram == 167772160,
        rounds::transfers_as(options, profile, devices),
{
}

/// The rounds of a run are those that were asked for, in that order and in that run; the masters of
/// different rounds do not share a port.
pub proof fn law_rounds_are_those_that_were_asked_for(
    run: Seq<KvTestRoundOptions>,
    names: Seq<Seq<char>>,
    run_scope: Seq<char>,
    i: int,
    j: int,
)
    requires
        rounds::are_rounds(run, names, run_scope),
        0 <= i < run.len(),
        0 <= j < run.len(),
    ensures
        run.len() == names.len(),
        rounds::profile_named(names[i]) == Some(run[i].round_profile),
        run[i].run_scope@ == run_scope,
        run[i].step8_master_port == run[i].master_port + 10,
        run[i].round_profile != run[j].round_profile ==> run[i].master_port != run[j].master_port
            && run[i].step8_master_port != run[j].step8_master_port && run[i].master_port
            != run[j].step8_master_port,
{
    assert(rounds::profile_named(names[i]) is Some);
    assert(rounds::profile_named(names[j]) is Some);
}

/// Where no rounds are asked for, there is one of each kind.
pub proof fn law_default_rounds_are_one_of_each()
    ensures
        rounds::asked_rounds(None).len() == 3,
        rounds::profile_named(rounds::asked_rounds(None)[0]) == Some(KvTestRoundProfile::P2pOnly),
        rounds::profile_named(rounds::asked_rounds(None)[1]) == Some(
            KvTestRoundProfile::RdmaTransferOnly,
        ),
        rounds::profile_named(rounds::asked_rounds(None)[2]) == Some(
            KvTestRoundProfile::RdmaTransferWithRpc,
        ),
{
    reveal_strlit("p2p_only");
    reveal_strlit("rdma_transfer_only");
    reveal_strlit("rdma_transfer_with_rpc");
    assert("p2p_only"@.len() != "rdma_transfer_only"@.len());
    assert("rdma_transfer_with_rpc"@.len() != "rdma_transfer_only"@.len());
    assert("p2p_only"@.len() != "rdma_transfer_with_rpc"@.len());
}

/// A run cannot be made exactly if one of its rounds cannot, and the first of those says why.
pub proof fn law_the_first_bad_round_says_why(names: Seq<Seq<char>>, has_devices: bool)
    ensures
        rounds::rounds_fault(names, has_devices) is None <==> forall|i: int|
            0 <= i < names.len() ==> (#[trigger] rounds::round_fault(names[i], has_devices)) is None,
        forall|i: int|
            0 <= i < names.len() && (#[trigger] rounds::round_fault(names[i], has_devices)) is Some
                && (forall|j: int|
                0 <= j < i ==> (#[trigger] rounds::round_fault(names[j], has_devices)) is None)
                ==> rounds::rounds_fault(names, has_devices) == rounds::round_fault(
                names[i],
                has_devices,
            ),
    decreases names.len(),
{
    if names.len() > 0 {
        let fewer = names.drop_last();
        law_the_first_bad_round_says_why(fewer, has_devices);
        assert forall|i: int| 0 <= i < fewer.len() implies fewer[i] == #[trigger] names[i] by {}
        let last = names.len() - 1;
        assert(rounds::round_fault(names[last], has_devices) == rounds::round_fault(
            names.last(),
            has_devices,
        ));
        if rounds::rounds_fault(names, has_devices) is None {
            assert forall|i: int| 0 <= i < names.len() implies (#[trigger] rounds::round_fault(
                names[i],
                has_devices,
            )) is None by {
                if i < fewer.len() {
                    assert(rounds::round_fault(fewer[i], has_devices) is None);
                }
            }
        }
        assert forall|i: int|
            0 <= i < names.len() && (#[trigger] rounds::round_fault(names[i], has_devices)) is Some
                && (forall|j: int|
                0 <= j < i ==> (#[trigger] rounds::round_fault(
                    names[j],
                    has_devices,
                )) is None) implies rounds::rounds_fault(names, has_devices)
            == rounds::round_fault(names[i], has_devices) by {
            assert forall|j: int| 0 <= j < i implies (#[trigger] rounds::round_fault(
                fewer[j],
                has_devices,
            )) is None by {
                assert(rounds::round_fault(names[j], has_devices) is None);
            }
            if i < fewer.len() {
                assert(rounds::round_fault(fewer[i], has_devices) is Some);
            }
        }
    }
}

/// A test that asks for side workers gets that many, on the ports that it names; nothing else of its
/// configuration changes, and nothing at all where it asks for none.
pub proof fn law_asked_workers_are_started(
    config: ClientConfig,
    worker_count: Option<u16>,
    port_base: Option<u16>,
)
    ensures
        ({
            let after = rounds::with_side_workers(config, worker_count, port_base);
            &&& worker_count is None ==> after == config
            &&& worker_count matches Some(count) ==> {
                &&& after.test_spec_config.enable_side_transfer
                &&& after.test_spec_config.side_transfer_worker_count == count
                &&& after.test_spec_config.side_transfer_worker_p2p_port_base == port_base
                &&& after.test_spec_config.side_transfer_role
                    == config.test_spec_config.side_transfer_role
                &&& after.test_spec_config.transport_mode == config.test_spec_config.transport_mode
            }
            &&& after.instance_key == config.instance_key
            &&& after.cluster_name == config.cluster_name
            &&& after.contribute_to_cluster_pool_size == config.contribute_to_cluster_pool_size
            &&& after.share_mem_path == config.share_mem_path
            &&& after.fluxonkv_spec == config.fluxonkv_spec
            &&& after.protocol == config.protocol
        }),
{
}

/// A padded number has at least the width, begins with zeros, and is the number.
pub proof fn law_padding_keeps_the_number(number: nat, width: nat)
    ensures
        script::padded(number, width).len() >= width,
        text::decimal(number).len() >= width ==> script::padded(number, width) == text::decimal(
            number,
        ),
        text::digits_value(script::padded(number, width)) == number,
    decreases width,
{
    texts::lemma_decimal(number);
    let digits = text::decimal(number);
    if digits.len() < width {
        let zeros = Seq::new((width - digits.len()) as nat, |i: int| '0');
        lemma_zeros_in_front(zeros, digits);
    }
}

proof fn lemma_zeros_in_front(zeros: Seq<char>, digits: Seq<char>)
    requires
        forall|i: int| 0 <= i < zeros.len() ==> #[trigger] zeros[i] == '0',
    ensures
        text::digits_value(zeros + digits) == text::digits_value(digits),
    decreases zeros.len() + digits.len(),
{
    reveal_with_fuel(text::digits_value, 2);
    if digits.len() > 0 {
        lemma_zeros_in_front(zeros, digits.drop_last());
        assert((zeros + digits).drop_last() =~= zeros + digits.drop_last());
    } else if zeros.len() > 0 {
        let fewer = zeros.drop_last();
        lemma_zeros_in_front(fewer, digits);
        assert(zeros + digits =~= zeros);
        assert(fewer + digits =~= fewer);
        assert(zeros[zeros.len() - 1] == '0');
    } else {
        assert(zeros + digits =~= digits);
    }
}

} // verus!
