//! The node's upper-layer protocols: their ids, which one a fuzz input
//! selects, and which of them a node registers for its configuration.
use vstd::prelude::*;

verus! {

/// The upper-layer protocols that a node can run.
#[derive(Clone, Copy, Debug, PartialEq, Eq, Structural)]
pub enum SupportProtocols {
    Sync,
    RelayV2,
    RelayV3,
    Time,
    Alert,
    LightClient,
    Filter,
}

impl SupportProtocols {
    /// The protocol id under which the protocol is registered.
    pub open spec fn spec_protocol_id(self) -> usize {
        match self {
            SupportProtocols::Sync => 100,
            SupportProtocols::RelayV2 => 101,
            SupportProtocols::RelayV3 => 103,
            SupportProtocols::Time => 102,
            SupportProtocols::Alert => 110,
            SupportProtocols::LightClient => 120,
            SupportProtocols::Filter => 121,
        }
    }

    /// The protocol id under which the protocol is registered.
    pub fn protocol_id(&self) -> (id: usize)
        ensures
            id == self.spec_protocol_id(),
    {
        match self {
            SupportProtocols::Sync => 100,
            SupportProtocols::RelayV2 => 101,
            SupportProtocols::RelayV3 => 103,
            SupportProtocols::Time => 102,
            SupportProtocols::Alert => 110,
            SupportProtocols::LightClient => 120,
            SupportProtocols::Filter => 121,
        }
    }
}

/// The protocol whose id is `id`, if there is one.
pub open spec fn protocol_from_id(id: u8) -> Option<SupportProtocols> {
    if id == 100 {
        Some(SupportProtocols::Sync)
    } else if id == 101 {
        Some(SupportProtocols::RelayV2)
    } else if id == 103 {
        Some(SupportProtocols::RelayV3)
    } else if id == 102 {
        Some(SupportProtocols::Time)
    } else if id == 110 {
        Some(SupportProtocols::Alert)
    } else if id == 120 {
        Some(SupportProtocols::LightClient)
    } else if id == 121 {
        Some(SupportProtocols::Filter)
    } else {
        None
    }
}

/// What `get_proto_type` answers for the next input byte (`None` where the
/// input is used up).
pub open spec fn spec_get_proto_type(next: Option<u8>) -> Result<SupportProtocols, ()> {
    match next {
        None => Err(()),
        Some(id) => match protocol_from_id(id) {
            Some(p) => Ok(p),
            None => Err(()),
        },
    }
}

/// Picks the protocol under test from the next byte of the fuzz input:
/// the protocol with that id, or an error where the input is used up or no
/// protocol has that id.
pub fn get_proto_type(next: Option<u8>) -> (r: Result<SupportProtocols, ()>)
    ensures
        r == spec_get_proto_type(next),
{
    match next {
        None => Err(()),
        Some(id) => match id {
            100 => Ok(SupportProtocols::Sync),
            101 => Ok(SupportProtocols::RelayV2),
            103 => Ok(SupportProtocols::RelayV3),
            102 => Ok(SupportProtocols::Time),
            110 => Ok(SupportProtocols::Alert),
            120 => Ok(SupportProtocols::LightClient),
            121 => Ok(SupportProtocols::Filter),
            _ => Err(()),
        },
    }
}

/// A byte selects exactly the protocol whose id it is: `get_proto_type`
/// inverts `protocol_id`.
pub proof fn lemma_proto_type_inverts_protocol_id(id: u8, p: SupportProtocols)
    ensures
        spec_get_proto_type(Some(id)) == Ok::<SupportProtocols, ()>(p) <==> p.spec_protocol_id()
            == id,
{
}

/// Each step of building the protocol under test fails where the fuzz
/// input is already used up.
pub fn check_input_left(is_end: bool) -> (r: Result<(), ()>)
    ensures
        r == (if is_end {
            Err::<(), ()>(())
        } else {
            Ok(())
        }),
{
    if is_end {
        Err(())
    } else {
        Ok(())
    }
}

/// What a protocol under test needs built before it can be made.
#[derive(Clone, Copy, Debug, PartialEq, Eq, Structural)]
pub struct ProtocolInputs {
    /// The shared synchronisation state.
    pub sync_shared: bool,
    /// A node version and a network alert configuration.
    pub version_and_alert_config: bool,
}

/// Every protocol but the time protocol needs the shared synchronisation
/// state; only the alert protocol needs a version and an alert
/// configuration.
pub fn protocol_inputs(t: SupportProtocols) -> (r: ProtocolInputs)
    ensures
        r.sync_shared == (t != SupportProtocols::Time),
        r.version_and_alert_config == (t == SupportProtocols::Alert),
{
    let sync_shared = match t {
        SupportProtocols::Time => false,
        _ => true,
    };
    let version_and_alert_config = match t {
        SupportProtocols::Alert => true,
        _ => false,
    };
    ProtocolInputs { sync_shared, version_and_alert_config }
}

/// The protocols that a node's configuration can ask for.
#[derive(Clone, Copy, Debug, PartialEq, Eq, Structural)]
pub enum SupportProtocol {
    Ping,
    Discovery,
    Identify,
    Feeler,
    DisconnectMessage,
    Sync,
    Relay,
    Time,
    Alert,
    LightClient,
    Filter,
}

/// Whether the configuration asks for `p`.
pub fn supports(support: &Vec<SupportProtocol>, p: SupportProtocol) -> (r: bool)
    ensures
        r == support@.contains(p),
{
    let mut i: usize = 0;
    while i < support.len()
        invariant
            i <= support@.len(),
            forall|j: int| 0 <= j < i ==> support@[j] != p,
        decreases support@.len() - i,
    {
        if support[i] == p {
            return true;
        }
        i = i + 1;
    }
    false
}

/// The upper-layer protocols that a node registers, and which service
/// flags it keeps, for the protocols its configuration asks for.
pub struct NetworkPlan {
    /// The protocols to register, in order.
    pub protocols: Vec<SupportProtocols>,
    /// Whether the node keeps advertising the relay flag.
    pub relay_flag: bool,
    /// Whether the node keeps advertising the block filter flag.
    pub block_filter_flag: bool,
    /// Whether the node keeps advertising the light client flag.
    pub light_client_flag: bool,
    /// The ids of the protocols that every peer must open.
    pub required_protocol_ids: Vec<usize>,
}

/// `p` if `b` holds, else nothing.
pub open spec fn when(b: bool, p: SupportProtocols) -> Seq<SupportProtocols> {
    if b {
        seq![p]
    } else {
        Seq::empty()
    }
}

/// The protocols that a node registers: synchronisation always; relay
/// (version 3, and version 2 only before the 2023 hard fork is active),
/// block filter, time, light client and alert where the configuration asks
/// for them.
pub open spec fn planned_protocols(support: Seq<SupportProtocol>, fork_enable: bool) -> Seq<
    SupportProtocols,
> {
    let relay = support.contains(SupportProtocol::Relay);
    seq![SupportProtocols::Sync] + when(relay, SupportProtocols::RelayV3) + when(
        relay && !fork_enable,
        SupportProtocols::RelayV2,
    ) + when(support.contains(SupportProtocol::Filter), SupportProtocols::Filter) + when(
        support.contains(SupportProtocol::Time),
        SupportProtocols::Time,
    ) + when(support.contains(SupportProtocol::LightClient), SupportProtocols::LightClient)
        + when(support.contains(SupportProtocol::Alert), SupportProtocols::Alert)
}

/// Decides which upper-layer protocols a node starts and which service
/// flags it drops, from the protocols that its configuration asks for and
/// whether the 2023 hard fork is active.
pub fn plan_network(support: &Vec<SupportProtocol>, fork_enable: bool) -> (r: NetworkPlan)
    ensures
        r.protocols@ == planned_protocols(support@, fork_enable),
        r.relay_flag == support@.contains(SupportProtocol::Relay),
        r.block_filter_flag == support@.contains(SupportProtocol::Filter),
        r.light_client_flag == support@.contains(SupportProtocol::LightClient),
        r.required_protocol_ids@ == seq![SupportProtocols::Sync.spec_protocol_id()],
{
    let mut protocols: Vec<SupportProtocols> = Vec::new();
    protocols.push(SupportProtocols::Sync);
    let ghost mut expected: Seq<SupportProtocols> = seq![SupportProtocols::Sync];
    assert(protocols@ =~= expected);

    let relay = supports(support, SupportProtocol::Relay);
    if relay {
        protocols.push(SupportProtocols::RelayV3);
        if !fork_enable {
            protocols.push(SupportProtocols::RelayV2);
        }
    }
    proof {
        expected = expected + when(relay, SupportProtocols::RelayV3) + when(
            relay && !fork_enable,
            SupportProtocols::RelayV2,
        );
    }
    assert(protocols@ =~= expected);

    let filter = supports(support, SupportProtocol::Filter);
    if filter {
        protocols.push(SupportProtocols::Filter);
    }
    proof {
        expected = expected + when(filter, SupportProtocols::Filter);
    }
    assert(protocols@ =~= expected);

    let time = supports(support, SupportProtocol::Time);
    if time {
        protocols.push(SupportProtocols::Time);
    }
    proof {
        expected = expected + when(time, SupportProtocols::Time);
    }
    assert(protocols@ =~= expected);

    let light_client = supports(support, SupportProtocol::LightClient);
    if light_client {
        protocols.push(SupportProtocols::LightClient);
    }
    proof {
        expected = expected + when(light_client, SupportProtocols::LightClient);
    }
    assert(protocols@ =~= expected);

    let alert = supports(support, SupportProtocol::Alert);
    if alert {
        protocols.push(SupportProtocols::Alert);
    }
    proof {
        expected = expected + when(alert, SupportProtocols::Alert);
    }
    assert(protocols@ =~= expected);

    let mut required_protocol_ids: Vec<usize> = Vec::new();
    required_protocol_ids.push(SupportProtocols::Sync.protocol_id());
    assert(required_protocol_ids@ =~= seq![SupportProtocols::Sync.spec_protocol_id()]);

    NetworkPlan {
        protocols,
        relay_flag: relay,
        block_filter_flag: filter,
        light_client_flag: light_client,
        required_protocol_ids,
    }
}

/// Whatever the configuration: synchronisation is registered, first; no
/// protocol is registered twice; relay version 2 is registered exactly
/// where relay is asked for and the 2023 hard fork is not active; and each
/// protocol of the configuration that has one is registered.
pub proof fn lemma_network_plan_laws(support: Seq<SupportProtocol>, fork_enable: bool)
    ensures
        planned_protocols(support, fork_enable)[0] == SupportProtocols::Sync,
        forall|i: int, j: int|
            0 <= i < j < planned_protocols(support, fork_enable).len() ==> planned_protocols(
                support,
                fork_enable,
            )[i] != planned_protocols(support, fork_enable)[j],
        planned_protocols(support, fork_enable).contains(SupportProtocols::RelayV2) <==> (
        support.contains(SupportProtocol::Relay) && !fork_enable),
        planned_protocols(support, fork_enable).contains(SupportProtocols::RelayV3)
            <==> support.contains(SupportProtocol::Relay),
        planned_protocols(support, fork_enable).contains(SupportProtocols::Filter)
            <==> support.contains(SupportProtocol::Filter),
        planned_protocols(support, fork_enable).contains(SupportProtocols::Time)
            <==> support.contains(SupportProtocol::Time),
        planned_protocols(support, fork_enable).contains(SupportProtocols::LightClient)
            <==> support.contains(SupportProtocol::LightClient),
        planned_protocols(support, fork_enable).contains(SupportProtocols::Alert)
            <==> support.contains(SupportProtocol::Alert),
{
    lemma_planned_is_prefix(support, fork_enable);
    lemma_plan_prefix(support, fork_enable, 6);
    let ps = planned_protocols(support, fork_enable);
    assert(ps[0] == SupportProtocols::Sync) by {
        assert(member(support, fork_enable, SupportProtocols::Sync));
        let i = choose|i: int| 0 <= i < ps.len() && ps[i] == SupportProtocols::Sync;
        if i > 0 {
            assert(rank(ps[0]) < rank(ps[i]));
        }
    }
    assert forall|i: int, j: int| 0 <= i < j < ps.len() implies ps[i] != ps[j] by {
        assert(rank(ps[i]) < rank(ps[j]));
    }
    assert forall|p: SupportProtocols| #[trigger] ps.contains(p) <==> member(support, fork_enable, p) by {
        if ps.contains(p) {
            let i = choose|i: int| 0 <= i < ps.len() && ps[i] == p;
            assert(member(support, fork_enable, ps[i]));
        }
        assert(rank(p) <= 6);
    }
}

/// The place of each protocol in the order in which a node registers them.
pub open spec fn rank(p: SupportProtocols) -> int {
    match p {
        SupportProtocols::Sync => 0,
        SupportProtocols::RelayV3 => 1,
        SupportProtocols::RelayV2 => 2,
        SupportProtocols::Filter => 3,
        SupportProtocols::Time => 4,
        SupportProtocols::LightClient => 5,
        SupportProtocols::Alert => 6,
    }
}

/// The protocol of rank `k`.
pub open spec fn protocol_of_rank(k: int) -> SupportProtocols {
    if k <= 0 {
        SupportProtocols::Sync
    } else if k == 1 {
        SupportProtocols::RelayV3
    } else if k == 2 {
        SupportProtocols::RelayV2
    } else if k == 3 {
        SupportProtocols::Filter
    } else if k == 4 {
        SupportProtocols::Time
    } else if k == 5 {
        SupportProtocols::LightClient
    } else {
        SupportProtocols::Alert
    }
}

/// Whether the node registers `p` for this configuration.
pub open spec fn member(support: Seq<SupportProtocol>, fork_enable: bool, p: SupportProtocols) -> bool {
    match p {
        SupportProtocols::Sync => true,
        SupportProtocols::RelayV3 => support.contains(SupportProtocol::Relay),
        SupportProtocols::RelayV2 => support.contains(SupportProtocol::Relay) && !fork_enable,
        SupportProtocols::Filter => support.contains(SupportProtocol::Filter),
        SupportProtocols::Time => support.contains(SupportProtocol::Time),
        SupportProtocols::LightClient => support.contains(SupportProtocol::LightClient),
        SupportProtocols::Alert => support.contains(SupportProtocol::Alert),
    }
}

/// The registered protocols of rank at most `k`, in order.
pub open spec fn plan_prefix(support: Seq<SupportProtocol>, fork_enable: bool, k: nat) -> Seq<
    SupportProtocols,
>
    decreases k,
{
    let p = protocol_of_rank(k as int);
    let part = when(member(support, fork_enable, p), p);
    if k == 0 {
        part
    } else {
        plan_prefix(support, fork_enable, (k - 1) as nat) + part
    }
}

proof fn lemma_planned_is_prefix(support: Seq<SupportProtocol>, fork_enable: bool)
    ensures
        planned_protocols(support, fork_enable) == plan_prefix(support, fork_enable, 6),
{
    reveal_with_fuel(plan_prefix, 7);
    assert(planned_protocols(support, fork_enable) =~= plan_prefix(support, fork_enable, 6));
}

/// Along the prefix of rank `k`, ranks rise strictly and stay at most `k`;
/// it holds exactly the registered protocols of rank at most `k`.
proof fn lemma_plan_prefix(support: Seq<SupportProtocol>, fork_enable: bool, k: nat)
    requires
        k <= 6,
    ensures
        forall|i: int, j: int|
            0 <= i < j < plan_prefix(support, fork_enable, k).len() ==> rank(
                #[trigger] plan_prefix(support, fork_enable, k)[i],
            ) < rank(#[trigger] plan_prefix(support, fork_enable, k)[j]),
        forall|i: int|
            0 <= i < plan_prefix(support, fork_enable, k).len() ==> rank(
                #[trigger] plan_prefix(support, fork_enable, k)[i],
            ) <= k && member(support, fork_enable, plan_prefix(support, fork_enable, k)[i]),
        forall|p: SupportProtocols|
            member(support, fork_enable, p) && rank(p) <= k ==> #[trigger] plan_prefix(
                support,
                fork_enable,
                k,
            ).contains(p),
    decreases k,
{
    let p = protocol_of_rank(k as int);
    let part = when(member(support, fork_enable, p), p);
    let t = plan_prefix(support, fork_enable, k);
    assert(rank(p) == k);
    if k == 0 {
        assert forall|q: SupportProtocols| member(support, fork_enable, q) && rank(q) <= k implies #[trigger] t.contains(q) by {
            assert(t[0] == q);
        }
    } else {
        let s = plan_prefix(support, fork_enable, (k - 1) as nat);
        lemma_plan_prefix(support, fork_enable, (k - 1) as nat);
        assert(t == s + part);
        assert forall|i: int, j: int| 0 <= i < j < t.len() implies rank(#[trigger] t[i]) < rank(
            #[trigger] t[j],
        ) by {
            assert(t[i] == s[i]);
            if j < s.len() {
                assert(t[j] == s[j]);
            } else {
                assert(t[j] == p);
            }
        }
        assert forall|i: int| 0 <= i < t.len() implies rank(#[trigger] t[i]) <= k && member(
            support,
            fork_enable,
            t[i],
        ) by {
            if i < s.len() {
                assert(t[i] == s[i]);
            } else {
                assert(t[i] == p);
            }
        }
        assert forall|q: SupportProtocols| member(support, fork_enable, q) && rank(q) <= k implies #[trigger] t.contains(q) by {
            if rank(q) < k {
                assert(s.contains(q));
                let i = choose|i: int| 0 <= i < s.len() && s[i] == q;
                assert(t[i] == q);
            } else {
                assert(q == p);
                assert(t[s.len() as int] == q);
            }
        }
    }
}

} // verus!
