use ckb_fuzz_harness::protocols::{
    check_input_left, get_proto_type, plan_network, protocol_inputs, supports, SupportProtocol, SupportProtocols,
};

const ALL: [SupportProtocols; 7] = [
    SupportProtocols::Sync,
    SupportProtocols::RelayV2,
    SupportProtocols::RelayV3,
    SupportProtocols::Time,
    SupportProtocols::Alert,
    SupportProtocols::LightClient,
    SupportProtocols::Filter,
];

#[test]
fn proto_type_ids() {
    assert_eq!(get_proto_type(Some(100)), Ok(SupportProtocols::Sync));
    assert_eq!(get_proto_type(Some(101)), Ok(SupportProtocols::RelayV2));
    assert_eq!(get_proto_type(Some(103)), Ok(SupportProtocols::RelayV3));
    assert_eq!(get_proto_type(Some(102)), Ok(SupportProtocols::Time));
    assert_eq!(get_proto_type(Some(110)), Ok(SupportProtocols::Alert));
    assert_eq!(get_proto_type(Some(120)), Ok(SupportProtocols::LightClient));
    assert_eq!(get_proto_type(Some(121)), Ok(SupportProtocols::Filter));
}

#[test]
fn proto_type_refusals() {
    assert_eq!(get_proto_type(None), Err(()));
    assert_eq!(get_proto_type(Some(0)), Err(()));
    assert_eq!(get_proto_type(Some(104)), Err(()));
    assert_eq!(get_proto_type(Some(255)), Err(()));
}

#[test]
fn proto_type_inverts_protocol_id() {
    for p in ALL {
        assert_eq!(get_proto_type(Some(p.protocol_id() as u8)), Ok(p));
    }
    for id in 0..=255u8 {
        if let Ok(p) = get_proto_type(Some(id)) {
            assert_eq!(p.protocol_id(), id as usize);
        }
    }
}

#[test]
fn inputs_per_protocol() {
    let time = protocol_inputs(SupportProtocols::Time);
    assert!(!time.sync_shared);
    assert!(!time.version_and_alert_config);
    let alert = protocol_inputs(SupportProtocols::Alert);
    assert!(alert.sync_shared);
    assert!(alert.version_and_alert_config);
    let sync = protocol_inputs(SupportProtocols::Sync);
    assert!(sync.sync_shared);
    assert!(!sync.version_and_alert_config);
}

#[test]
fn supports_lookup() {
    let s = vec![SupportProtocol::Ping, SupportProtocol::Relay];
    assert!(supports(&s, SupportProtocol::Relay));
    assert!(!supports(&s, SupportProtocol::Filter));
    assert!(!supports(&vec![], SupportProtocol::Sync));
}

#[test]
fn plan_with_everything_before_fork() {
    let s = vec![
        SupportProtocol::Sync,
        SupportProtocol::Relay,
        SupportProtocol::Time,
        SupportProtocol::Alert,
        SupportProtocol::LightClient,
        SupportProtocol::Filter,
    ];
    let plan = plan_network(&s, false);
    assert_eq!(
        plan.protocols,
        vec![
            SupportProtocols::Sync,
            SupportProtocols::RelayV3,
            SupportProtocols::RelayV2,
            SupportProtocols::Filter,
            SupportProtocols::Time,
            SupportProtocols::LightClient,
            SupportProtocols::Alert,
        ]
    );
    assert!(plan.relay_flag && plan.block_filter_flag && plan.light_client_flag);
    assert_eq!(plan.required_protocol_ids, vec![100]);
}

#[test]
fn plan_after_fork_drops_relay_v2() {
    let s = vec![SupportProtocol::Relay, SupportProtocol::Filter];
    let plan = plan_network(&s, true);
    assert_eq!(
        plan.protocols,
        vec![SupportProtocols::Sync, SupportProtocols::RelayV3, SupportProtocols::Filter]
    );
    assert!(plan.relay_flag);
    assert!(plan.block_filter_flag);
    assert!(!plan.light_client_flag);
}

#[test]
fn plan_with_nothing_keeps_sync_only() {
    let plan = plan_network(&vec![], false);
    assert_eq!(plan.protocols, vec![SupportProtocols::Sync]);
    assert!(!plan.relay_flag && !plan.block_filter_flag && !plan.light_client_flag);
    assert_eq!(plan.required_protocol_ids, vec![100]);
}

#[test]
fn plan_has_no_duplicates() {
    let s = vec![
        SupportProtocol::Relay,
        SupportProtocol::Relay,
        SupportProtocol::Alert,
        SupportProtocol::Alert,
    ];
    let plan = plan_network(&s, false);
    for i in 0..plan.protocols.len() {
        for j in (i + 1)..plan.protocols.len() {
            assert_ne!(plan.protocols[i], plan.protocols[j]);
        }
    }
    assert_eq!(plan.protocols[0], SupportProtocols::Sync);
}

#[test]
fn input_left_check() {
    assert_eq!(check_input_left(true), Err(()));
    assert_eq!(check_input_left(false), Ok(()));
}
