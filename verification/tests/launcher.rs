use ckb_fuzz_harness::launcher::{
    adjust_rpc_config, bytes_eq, check_assume_valid_target, check_indexer_config,
    check_lock_code_hash, check_spec, lock_check_needed, sanitize_block_assembler_config,
    BlockAssemblerConfig, ExitCode, GenesisCellOutput, RpcModule, ScriptHashType,
    SpecHashAction,
};

#[test]
fn spec_hash_actions() {
    let configured = vec![1u8; 32];
    assert_eq!(check_spec(&None, &configured, false, false), Ok(SpecHashAction::Touch));
    assert_eq!(
        check_spec(&Some(vec![1u8; 32]), &configured, false, false),
        Ok(SpecHashAction::Unchanged)
    );
    assert_eq!(
        check_spec(&Some(vec![2u8; 32]), &configured, true, true),
        Ok(SpecHashAction::Overwrite)
    );
    assert_eq!(
        check_spec(&Some(vec![2u8; 32]), &configured, false, true),
        Ok(SpecHashAction::Skip)
    );
    assert_eq!(
        check_spec(&Some(vec![2u8; 32]), &configured, false, false),
        Err(ExitCode::Config)
    );
}

#[test]
fn matching_spec_hash_never_fails() {
    let configured = vec![7u8; 32];
    for overwrite in [false, true] {
        for skip in [false, true] {
            assert!(check_spec(&Some(configured.clone()), &configured, overwrite, skip).is_ok());
            assert!(check_spec(&None, &configured, overwrite, skip).is_ok());
        }
    }
}

#[test]
fn byte_equality() {
    assert!(bytes_eq(&[1, 2], &[1, 2]));
    assert!(!bytes_eq(&[1, 2], &[1, 3]));
    assert!(!bytes_eq(&[1, 2], &[1, 2, 3]));
    assert!(bytes_eq(&[], &[]));
}

fn lock_outputs() -> Vec<GenesisCellOutput> {
    vec![
        GenesisCellOutput { data: vec![1, 2, 3], type_script_hash: None },
        GenesisCellOutput { data: vec![9, 9], type_script_hash: Some(vec![5u8; 32]) },
        GenesisCellOutput { data: vec![1, 2, 3], type_script_hash: Some(vec![6u8; 32]) },
    ]
}

#[test]
fn lock_code_hash_lookup() {
    let outs = lock_outputs();
    assert!(check_lock_code_hash(&outs, &[1, 2, 3], &[6u8; 32]));
    assert!(!check_lock_code_hash(&outs, &[1, 2, 3], &[5u8; 32]));
    assert!(!check_lock_code_hash(&outs, &[9, 9, 9], &[5u8; 32]));
    assert!(!check_lock_code_hash(&vec![], &[1, 2, 3], &[6u8; 32]));
}

fn recommended(prefix: bool) -> BlockAssemblerConfig {
    BlockAssemblerConfig {
        code_hash: vec![6u8; 32],
        args: vec![0u8; 20],
        hash_type: ScriptHashType::Type,
        use_binary_version_as_message_prefix: prefix,
        binary_version: "old".to_string(),
    }
}

#[test]
fn block_assembler_disabled_without_miner_or_config() {
    let r = sanitize_block_assembler_config(false, Some(recommended(true)), true, "v".into(), None);
    assert!(matches!(r, Ok(None)));
    let r = sanitize_block_assembler_config(true, None, true, "v".into(), None);
    assert!(matches!(r, Ok(None)));
}

#[test]
fn block_assembler_advanced_mode_keeps_any_lock() {
    let mut ba = recommended(true);
    ba.hash_type = ScriptHashType::Data;
    ba.args = vec![1, 2];
    assert!(!lock_check_needed(true, &ba));
    let r = sanitize_block_assembler_config(true, Some(ba), true, "0.116.0 (abc)".into(), None)
        .unwrap()
        .unwrap();
    assert_eq!(r.binary_version, "0.116.0 (abc)");
    assert_eq!(r.args, vec![1, 2]);
}

#[test]
fn block_assembler_recommended_lock() {
    let ba = recommended(false);
    assert!(lock_check_needed(false, &ba));
    let r = sanitize_block_assembler_config(true, Some(ba), false, "new".into(), Some(Ok(true)))
        .unwrap()
        .unwrap();
    assert_eq!(r.binary_version, "old");
    let r = sanitize_block_assembler_config(
        true,
        Some(recommended(true)),
        false,
        "new".into(),
        Some(Ok(false)),
    );
    assert!(matches!(r, Ok(None)));
}

#[test]
fn block_assembler_failed_lock_load() {
    let r = sanitize_block_assembler_config(
        true,
        Some(recommended(true)),
        false,
        "new".into(),
        Some(Err(ExitCode::Failure)),
    );
    assert!(matches!(r, Err(ExitCode::Failure)));
}

#[test]
fn block_assembler_other_lock_disabled() {
    let mut ba = recommended(true);
    ba.args = vec![0u8; 21];
    assert!(!lock_check_needed(false, &ba));
    let r = sanitize_block_assembler_config(true, Some(ba), false, "new".into(), None);
    assert!(matches!(r, Ok(None)));
    let mut ba = recommended(true);
    ba.hash_type = ScriptHashType::Data1;
    let r = sanitize_block_assembler_config(true, Some(ba), false, "new".into(), Some(Ok(true)));
    assert!(matches!(r, Ok(None)));
}

#[test]
fn rpc_modules_adjusted() {
    let modules = vec![RpcModule::Net, RpcModule::Chain];
    assert_eq!(adjust_rpc_config(&modules, false, false), modules);
    assert_eq!(
        adjust_rpc_config(&modules, true, false),
        vec![RpcModule::Net, RpcModule::Chain, RpcModule::Indexer]
    );
    assert_eq!(
        adjust_rpc_config(&modules, true, true),
        vec![RpcModule::Net, RpcModule::Chain, RpcModule::Indexer, RpcModule::RichIndexer]
    );
    let with_indexer = vec![RpcModule::Indexer, RpcModule::Net];
    assert_eq!(adjust_rpc_config(&with_indexer, true, false), with_indexer);
}

#[test]
fn rpc_adjust_is_idempotent() {
    let modules = vec![RpcModule::Pool, RpcModule::RichIndexer];
    for indexer in [false, true] {
        for rich in [false, true] {
            let once = adjust_rpc_config(&modules, indexer, rich);
            assert_eq!(adjust_rpc_config(&once, indexer, rich), once);
        }
    }
}

#[test]
fn indexer_conflicts() {
    let none: Vec<RpcModule> = vec![];
    assert_eq!(check_indexer_config(&none, true, true), Err(ExitCode::Config));
    assert_eq!(check_indexer_config(&none, true, false), Ok(()));
    assert_eq!(check_indexer_config(&none, false, false), Ok(()));
    let both = vec![RpcModule::Indexer, RpcModule::RichIndexer];
    assert_eq!(check_indexer_config(&both, false, false), Err(ExitCode::Config));
    let rich = vec![RpcModule::RichIndexer];
    assert_eq!(check_indexer_config(&rich, true, false), Err(ExitCode::Config));
    assert_eq!(check_indexer_config(&rich, false, true), Ok(()));
}

#[test]
fn indexer_check_matches_adjusted_modules() {
    let cases = vec![vec![], vec![RpcModule::Indexer], vec![RpcModule::RichIndexer]];
    for modules in cases {
        for indexer in [false, true] {
            for rich in [false, true] {
                let adjusted = adjust_rpc_config(&modules, indexer, rich);
                let both = adjusted.contains(&RpcModule::Indexer)
                    && adjusted.contains(&RpcModule::RichIndexer);
                assert_eq!(check_indexer_config(&modules, indexer, rich).is_err(), both);
            }
        }
    }
}

#[test]
fn assume_valid_target_dropped_when_block_known() {
    let mut target = Some(vec![1u8; 32]);
    check_assume_valid_target(&mut target, false);
    assert_eq!(target, Some(vec![1u8; 32]));
    check_assume_valid_target(&mut target, true);
    assert_eq!(target, None);
    let mut none: Option<Vec<u8>> = None;
    check_assume_valid_target(&mut none, true);
    assert_eq!(none, None);
}
