//! The decisions that a node makes while it starts: which block assembler
//! configuration it keeps, how it treats the stored chain spec hash, which
//! RPC modules it enables, and whether it keeps its assume-valid target.
use vstd::prelude::*;

verus! {

/// Why a node stops while it starts.
#[derive(Clone, Copy, Debug, PartialEq, Eq, Structural)]
pub enum ExitCode {
    /// Bad command line.
    Cli,
    /// Bad configuration.
    Config,
    /// Input or output failed.
    IO,
    /// Anything else failed.
    Failure,
}

/// Whether two byte strings are equal.
pub fn bytes_eq(a: &[u8], b: &[u8]) -> (r: bool)
    ensures
        r == (a@ == b@),
{
    if a.len() != b.len() {
        return false;
    }
    let mut i: usize = 0;
    while i < a.len()
        invariant
            a@.len() == b@.len(),
            i <= a@.len(),
            forall|k: int| 0 <= k < i ==> a@[k] == b@[k],
        decreases a@.len() - i,
    {
        if a[i] != b[i] {
            return false;
        }
        i = i + 1;
    }
    assert(a@ =~= b@);
    true
}

/// The bytes of an optional hash.
pub open spec fn opt_bytes(h: Option<Vec<u8>>) -> Option<Seq<u8>> {
    match h {
        Some(v) => Some(v@),
        None => None,
    }
}

/// What the node does with the chain spec hash that its store holds.
#[derive(Clone, Copy, Debug, PartialEq, Eq, Structural)]
pub enum SpecHashAction {
    /// The store holds none: write the configured one.
    Touch,
    /// The store holds the configured one: nothing to do.
    Unchanged,
    /// The store holds another one and overwriting was asked for: write
    /// the configured one.
    Overwrite,
    /// The store holds another one and skipping the check was asked for:
    /// nothing to do.
    Skip,
}

/// The outcome of the chain spec check.
pub open spec fn spec_check_spec(
    stored: Option<Seq<u8>>,
    configured: Seq<u8>,
    overwrite_chain_spec: bool,
    skip_chain_spec_check: bool,
) -> Result<SpecHashAction, ExitCode> {
    match stored {
        None => Ok(SpecHashAction::Touch),
        Some(h) => if h == configured {
            Ok(SpecHashAction::Unchanged)
        } else if overwrite_chain_spec {
            Ok(SpecHashAction::Overwrite)
        } else if skip_chain_spec_check {
            Ok(SpecHashAction::Skip)
        } else {
            Err(ExitCode::Config)
        },
    }
}

/// Compares the chain spec hash in the store with the configured one and
/// decides what to do: write it where the store holds none or where
/// overwriting was asked for; stop with a configuration error where they
/// differ and neither overwriting nor skipping was asked for.
pub fn check_spec(
    stored: &Option<Vec<u8>>,
    configured: &Vec<u8>,
    overwrite_chain_spec: bool,
    skip_chain_spec_check: bool,
) -> (r: Result<SpecHashAction, ExitCode>)
    ensures
        r == spec_check_spec(
            opt_bytes(*stored),
            configured@,
            overwrite_chain_spec,
            skip_chain_spec_check,
        ),
{
    match stored {
        None => Ok(SpecHashAction::Touch),
        Some(h) => {
            if bytes_eq(h.as_slice(), configured.as_slice()) {
                Ok(SpecHashAction::Unchanged)
            } else if overwrite_chain_spec {
                Ok(SpecHashAction::Overwrite)
            } else if skip_chain_spec_check {
                Ok(SpecHashAction::Skip)
            } else {
                Err(ExitCode::Config)
            }
        },
    }
}

/// Whichever flags are given, a store that holds the configured hash, or
/// none, never stops the node; only a differing hash with neither flag
/// does.
pub proof fn lemma_check_spec_fails_only_on_mismatch(
    stored: Option<Seq<u8>>,
    configured: Seq<u8>,
    overwrite_chain_spec: bool,
    skip_chain_spec_check: bool,
)
    ensures
        spec_check_spec(stored, configured, overwrite_chain_spec, skip_chain_spec_check) is Err
            <==> (stored matches Some(h) && h != configured && !overwrite_chain_spec
            && !skip_chain_spec_check),
{
}

/// What the check does for each state of the store: a fresh store (no
/// hash) always gets the configured hash written, whatever the flags; a
/// store that holds the configured hash is left alone; a differing hash is
/// overwritten where asked, else skipped where asked, else refused. Only
/// the two writing outcomes write, and they write exactly where the store
/// is fresh or overwriting a differing hash was asked for.
pub proof fn lemma_check_spec_outcomes(
    stored: Option<Seq<u8>>,
    configured: Seq<u8>,
    overwrite_chain_spec: bool,
    skip_chain_spec_check: bool,
)
    ensures
        stored is None ==> spec_check_spec(
            stored,
            configured,
            overwrite_chain_spec,
            skip_chain_spec_check,
        ) == Ok::<SpecHashAction, ExitCode>(SpecHashAction::Touch),
        stored == Some(configured) ==> spec_check_spec(
            stored,
            configured,
            overwrite_chain_spec,
            skip_chain_spec_check,
        ) == Ok::<SpecHashAction, ExitCode>(SpecHashAction::Unchanged),
        (stored matches Some(h) && h != configured && overwrite_chain_spec) ==> spec_check_spec(
            stored,
            configured,
            overwrite_chain_spec,
            skip_chain_spec_check,
        ) == Ok::<SpecHashAction, ExitCode>(SpecHashAction::Overwrite),
        (stored matches Some(h) && h != configured && !overwrite_chain_spec
            && skip_chain_spec_check) ==> spec_check_spec(
            stored,
            configured,
            overwrite_chain_spec,
            skip_chain_spec_check,
        ) == Ok::<SpecHashAction, ExitCode>(SpecHashAction::Skip),
        (spec_check_spec(stored, configured, overwrite_chain_spec, skip_chain_spec_check)
            == Ok::<SpecHashAction, ExitCode>(SpecHashAction::Touch)
            || spec_check_spec(stored, configured, overwrite_chain_spec, skip_chain_spec_check)
            == Ok::<SpecHashAction, ExitCode>(SpecHashAction::Overwrite)) <==> (stored is None
            || (stored matches Some(h) && h != configured && overwrite_chain_spec)),
        spec_check_spec(stored, configured, overwrite_chain_spec, skip_chain_spec_check) is Err
            ==> spec_check_spec(stored, configured, overwrite_chain_spec, skip_chain_spec_check)
            == Err::<SpecHashAction, ExitCode>(ExitCode::Config),
{
}

/// How a lock script refers to its code.
#[derive(Clone, Copy, Debug, PartialEq, Eq, Structural)]
pub enum ScriptHashType {
    Data,
    Type,
    Data1,
    Data2,
}

/// The length of the lock args of the default secp256k1 lock.
pub const SECP256K1_BLAKE160_SIGHASH_ALL_ARG_LEN: usize = 20;

/// The block assembler settings that the start-up check reads or changes.
pub struct BlockAssemblerConfig {
    pub code_hash: Vec<u8>,
    pub args: Vec<u8>,
    pub hash_type: ScriptHashType,
    pub use_binary_version_as_message_prefix: bool,
    pub binary_version: String,
}

/// What a `BlockAssemblerConfig` holds.
pub struct BlockAssemblerModel {
    pub code_hash: Seq<u8>,
    pub args: Seq<u8>,
    pub hash_type: ScriptHashType,
    pub use_binary_version_as_message_prefix: bool,
    pub binary_version: Seq<char>,
}

impl View for BlockAssemblerConfig {
    type V = BlockAssemblerModel;

    open spec fn view(&self) -> BlockAssemblerModel {
        BlockAssemblerModel {
            code_hash: self.code_hash@,
            args: self.args@,
            hash_type: self.hash_type,
            use_binary_version_as_message_prefix: self.use_binary_version_as_message_prefix,
            binary_version: self.binary_version@,
        }
    }
}

/// An output of the genesis cellbase: its data and the hash of its type
/// script, where it has one.
pub struct GenesisCellOutput {
    pub data: Vec<u8>,
    pub type_script_hash: Option<Vec<u8>>,
}

/// Whether an output holds the secp256k1 cell data under a type script
/// whose hash is `code_hash`.
pub open spec fn is_lock_cell(out: GenesisCellOutput, secp_cell_data: Seq<u8>, code_hash: Seq<u8>) -> bool {
    &&& out.data@ == secp_cell_data
    &&& opt_bytes(out.type_script_hash) == Some(code_hash)
}

/// Whether `code_hash` is the type hash of the genesis cell that holds the
/// secp256k1 lock code `secp_cell_data`.
pub fn check_lock_code_hash(
    outputs: &Vec<GenesisCellOutput>,
    secp_cell_data: &[u8],
    code_hash: &[u8],
) -> (r: bool)
    ensures
        r == exists|i: int|
            0 <= i < outputs@.len() && #[trigger] is_lock_cell(
                outputs@[i],
                secp_cell_data@,
                code_hash@,
            ),
{
    let mut i: usize = 0;
    while i < outputs.len()
        invariant
            i <= outputs@.len(),
            forall|k: int|
                0 <= k < i ==> !#[trigger] is_lock_cell(outputs@[k], secp_cell_data@, code_hash@),
        decreases outputs@.len() - i,
    {
        let out = &outputs[i];
        if bytes_eq(out.data.as_slice(), secp_cell_data) {
            match &out.type_script_hash {
                Some(h) => {
                    if bytes_eq(h.as_slice(), code_hash) {
                        assert(is_lock_cell(outputs@[i as int], secp_cell_data@, code_hash@));
                        return true;
                    }
                },
                None => {},
            }
        }
        i = i + 1;
    }
    false
}

/// Whether keeping the block assembler depends on the lock check: the
/// advanced mode is off, and the lock is a type-hashed script with 20
/// bytes of args.
pub open spec fn spec_lock_check_needed(block_assembler_advanced: bool, ba: BlockAssemblerModel) -> bool {
    &&& !block_assembler_advanced
    &&& ba.hash_type == ScriptHashType::Type
    &&& ba.args.len() == SECP256K1_BLAKE160_SIGHASH_ALL_ARG_LEN
}

/// Whether keeping the block assembler depends on the lock check.
pub fn lock_check_needed(block_assembler_advanced: bool, ba: &BlockAssemblerConfig) -> (r: bool)
    ensures
        r == spec_lock_check_needed(block_assembler_advanced, ba@),
{
    !block_assembler_advanced && ba.hash_type == ScriptHashType::Type && ba.args.len()
        == SECP256K1_BLAKE160_SIGHASH_ALL_ARG_LEN
}

/// The block assembler settings with the binary version replaced by
/// `version_long` where the settings ask for it as message prefix.
pub open spec fn with_version(ba: BlockAssemblerModel, version_long: Seq<char>) -> BlockAssemblerModel {
    if ba.use_binary_version_as_message_prefix {
        BlockAssemblerModel { binary_version: version_long, ..ba }
    } else {
        ba
    }
}

/// The outcome of the block assembler check. `lock_check` is the result of
/// the lock check where it was made.
pub open spec fn spec_sanitize(
    miner_enable: bool,
    block_assembler: Option<BlockAssemblerModel>,
    block_assembler_advanced: bool,
    version_long: Seq<char>,
    lock_check: Option<Result<bool, ExitCode>>,
) -> Result<Option<BlockAssemblerModel>, ExitCode> {
    match block_assembler {
        Some(ba) if miner_enable => {
            if block_assembler_advanced {
                Ok(Some(with_version(ba, version_long)))
            } else if !spec_lock_check_needed(block_assembler_advanced, ba) {
                Ok(None)
            } else {
                match lock_check {
                    Some(Ok(true)) => Ok(Some(with_version(ba, version_long))),
                    Some(Err(e)) => Err(e),
                    _ => Ok(None),
                }
            }
        },
        _ => Ok(None),
    }
}

/// The settings of a checked block assembler configuration.
pub open spec fn sanitized_view(r: Result<Option<BlockAssemblerConfig>, ExitCode>) -> Result<
    Option<BlockAssemblerModel>,
    ExitCode,
> {
    match r {
        Ok(Some(ba)) => Ok(Some(ba@)),
        Ok(None) => Ok(None),
        Err(e) => Err(e),
    }
}

/// Decides whether the node keeps its block assembler: only with the miner
/// enabled and a configuration, and then in advanced mode, or for the
/// recommended lock (a type-hashed script with 20 bytes of args whose code
/// hash the lock check confirmed). A failed lock check stops the node.
/// A kept configuration takes `version_long` as binary version where it
/// asks for the version as message prefix. `lock_check` is the outcome of
/// `check_lock_code_hash` (or of loading the lock code) and must be given
/// where `lock_check_needed` holds.
pub fn sanitize_block_assembler_config(
    miner_enable: bool,
    block_assembler: Option<BlockAssemblerConfig>,
    block_assembler_advanced: bool,
    version_long: String,
    lock_check: Option<Result<bool, ExitCode>>,
) -> (r: Result<Option<BlockAssemblerConfig>, ExitCode>)
    requires
        (block_assembler matches Some(ba) && miner_enable && spec_lock_check_needed(
            block_assembler_advanced,
            ba@,
        )) ==> lock_check is Some,
    ensures
        sanitized_view(r) == spec_sanitize(
            miner_enable,
            match block_assembler {
                Some(ba) => Some(ba@),
                None => None,
            },
            block_assembler_advanced,
            version_long@,
            lock_check,
        ),
{
    match block_assembler {
        Some(mut ba) => {
            if !miner_enable {
                return Ok(None);
            }
            let accepted = if block_assembler_advanced {
                true
            } else if lock_check_needed(block_assembler_advanced, &ba) {
                match lock_check {
                    Some(Ok(b)) => b,
                    Some(Err(e)) => {
                        return Err(e);
                    },
                    None => false,
                }
            } else {
                false
            };
            if accepted {
                if ba.use_binary_version_as_message_prefix {
                    ba.binary_version = version_long;
                }
                Ok(Some(ba))
            } else {
                Ok(None)
            }
        },
        None => Ok(None),
    }
}

/// What the block assembler check keeps, for every input:
/// - without the miner or without a configuration, nothing;
/// - in advanced mode, the configuration, whatever its lock;
/// - otherwise a kept configuration has a type-hashed lock with exactly 20
///   bytes of args whose code hash the lock check confirmed, and any other
///   lock is dropped;
/// - a kept configuration differs from the given one only in its binary
///   version, which is `version_long` exactly where it asks for the
///   version as message prefix;
/// - the check fails only with the error of a failed lock check, and only
///   where that check was needed.
pub proof fn lemma_sanitize_outcomes(
    miner_enable: bool,
    block_assembler: Option<BlockAssemblerModel>,
    block_assembler_advanced: bool,
    version_long: Seq<char>,
    lock_check: Option<Result<bool, ExitCode>>,
)
    ensures
        (!miner_enable || block_assembler is None) ==> spec_sanitize(
            miner_enable,
            block_assembler,
            block_assembler_advanced,
            version_long,
            lock_check,
        ) == Ok::<Option<BlockAssemblerModel>, ExitCode>(None),
        (miner_enable && block_assembler is Some && block_assembler_advanced) ==> spec_sanitize(
            miner_enable,
            block_assembler,
            block_assembler_advanced,
            version_long,
            lock_check,
        ) is Ok && spec_sanitize(
            miner_enable,
            block_assembler,
            block_assembler_advanced,
            version_long,
            lock_check,
        )->Ok_0 is Some,
        match block_assembler {
            Some(ba) => (!block_assembler_advanced && (ba.hash_type != ScriptHashType::Type
                || ba.args.len() != 20)) ==> spec_sanitize(
                miner_enable,
                block_assembler,
                block_assembler_advanced,
                version_long,
                lock_check,
            ) == Ok::<Option<BlockAssemblerModel>, ExitCode>(None),
            None => true,
        },
        match spec_sanitize(
            miner_enable,
            block_assembler,
            block_assembler_advanced,
            version_long,
            lock_check,
        ) {
            Ok(Some(out)) => match block_assembler {
                Some(ba) => {
                    &&& !block_assembler_advanced ==> {
                        &&& ba.hash_type == ScriptHashType::Type
                        &&& ba.args.len() == 20
                        &&& lock_check == Some(Ok::<bool, ExitCode>(true))
                    }
                    &&& out.code_hash == ba.code_hash
                    &&& out.args == ba.args
                    &&& out.hash_type == ba.hash_type
                    &&& out.use_binary_version_as_message_prefix
                        == ba.use_binary_version_as_message_prefix
                    &&& out.binary_version == (if ba.use_binary_version_as_message_prefix {
                        version_long
                    } else {
                        ba.binary_version
                    })
                },
                None => false,
            },
            Ok(None) => true,
            Err(e) => match block_assembler {
                Some(ba) => {
                    &&& miner_enable && !block_assembler_advanced
                    &&& ba.hash_type == ScriptHashType::Type
                    &&& ba.args.len() == 20
                    &&& lock_check == Some(Err::<bool, ExitCode>(e))
                },
                None => false,
            },
        },
{
}

/// The RPC modules that a node serves.
#[derive(Clone, Copy, Debug, PartialEq, Eq, Structural)]
pub enum RpcModule {
    Net,
    Chain,
    Miner,
    Pool,
    Experiment,
    Stats,
    IntegrationTest,
    Alert,
    Subscription,
    Debug,
    Indexer,
    RichIndexer,
    Terminal,
}

/// Whether `modules` holds `m`.
pub fn has_module(modules: &Vec<RpcModule>, m: RpcModule) -> (r: bool)
    ensures
        r == modules@.contains(m),
{
    let mut i: usize = 0;
    while i < modules.len()
        invariant
            i <= modules@.len(),
            forall|k: int| 0 <= k < i ==> modules@[k] != m,
        decreases modules@.len() - i,
    {
        if modules[i] == m {
            return true;
        }
        i = i + 1;
    }
    false
}

/// The configured RPC modules with the indexer (and then the rich
/// indexer) added where the command line asks for it and the
/// configuration does not already hold it.
pub open spec fn spec_adjust_rpc_modules(modules: Seq<RpcModule>, indexer: bool, rich_indexer: bool) -> Seq<RpcModule> {
    let m1 = if indexer && !modules.contains(RpcModule::Indexer) {
        modules.push(RpcModule::Indexer)
    } else {
        modules
    };
    if rich_indexer && !m1.contains(RpcModule::RichIndexer) {
        m1.push(RpcModule::RichIndexer)
    } else {
        m1
    }
}

/// The RPC modules that the node serves: the configured ones, with the
/// indexer and the rich indexer added where the command line asks for them.
pub fn adjust_rpc_config(modules: &Vec<RpcModule>, indexer: bool, rich_indexer: bool) -> (r: Vec<RpcModule>)
    ensures
        r@ == spec_adjust_rpc_modules(modules@, indexer, rich_indexer),
{
    let mut config = modules.clone();
    assert(config@ =~= modules@);
    if indexer && !has_module(&config, RpcModule::Indexer) {
        config.push(RpcModule::Indexer);
    }
    if rich_indexer && !has_module(&config, RpcModule::RichIndexer) {
        config.push(RpcModule::RichIndexer);
    }
    config
}

/// Adjusting the RPC modules keeps the configured ones in front, serves the
/// indexers that the command line asks for, and a second adjustment changes
/// nothing.
pub proof fn lemma_adjust_rpc_modules_laws(modules: Seq<RpcModule>, indexer: bool, rich_indexer: bool)
    ensures
        spec_adjust_rpc_modules(modules, indexer, rich_indexer).subrange(0, modules.len() as int)
            == modules,
        indexer ==> spec_adjust_rpc_modules(modules, indexer, rich_indexer).contains(
            RpcModule::Indexer,
        ),
        rich_indexer ==> spec_adjust_rpc_modules(modules, indexer, rich_indexer).contains(
            RpcModule::RichIndexer,
        ),
        spec_adjust_rpc_modules(
            spec_adjust_rpc_modules(modules, indexer, rich_indexer),
            indexer,
            rich_indexer,
        ) == spec_adjust_rpc_modules(modules, indexer, rich_indexer),
{
    let m1 = if indexer && !modules.contains(RpcModule::Indexer) {
        modules.push(RpcModule::Indexer)
    } else {
        modules
    };
    let m2 = spec_adjust_rpc_modules(modules, indexer, rich_indexer);
    assert(m2.subrange(0, modules.len() as int) =~= modules);
    if indexer {
        if !modules.contains(RpcModule::Indexer) {
            assert(m1[modules.len() as int] == RpcModule::Indexer);
        }
        assert(m1.contains(RpcModule::Indexer));
        if rich_indexer && !m1.contains(RpcModule::RichIndexer) {
            let i = choose|i: int| 0 <= i < m1.len() && m1[i] == RpcModule::Indexer;
            assert(m2[i] == RpcModule::Indexer);
        }
        assert(m2.contains(RpcModule::Indexer));
    }
    if rich_indexer {
        if !m1.contains(RpcModule::RichIndexer) {
            assert(m2[m1.len() as int] == RpcModule::RichIndexer);
        }
        assert(m2.contains(RpcModule::RichIndexer));
    }
}

/// Whether the indexer and the rich indexer would both be served.
pub open spec fn indexers_conflict(modules: Seq<RpcModule>, indexer: bool, rich_indexer: bool) -> bool {
    &&& (indexer || modules.contains(RpcModule::Indexer))
    &&& (rich_indexer || modules.contains(RpcModule::RichIndexer))
}

/// Refuses, as a configuration error, to serve both the indexer and the
/// rich indexer, whether the command line or the configuration asks for
/// them.
pub fn check_indexer_config(modules: &Vec<RpcModule>, indexer: bool, rich_indexer: bool) -> (r:
    Result<(), ExitCode>)
    ensures
        r == (if indexers_conflict(modules@, indexer, rich_indexer) {
            Err(ExitCode::Config)
        } else {
            Ok(())
        }),
{
    if (indexer || has_module(modules, RpcModule::Indexer)) && (rich_indexer || has_module(
        modules,
        RpcModule::RichIndexer,
    )) {
        return Err(ExitCode::Config);
    }
    Ok(())
}

/// The indexer check refuses exactly the configurations whose adjusted RPC
/// modules would hold both the indexer and the rich indexer.
pub proof fn lemma_indexer_check_matches_adjusted_modules(
    modules: Seq<RpcModule>,
    indexer: bool,
    rich_indexer: bool,
)
    ensures
        indexers_conflict(modules, indexer, rich_indexer) <==> (spec_adjust_rpc_modules(
            modules,
            indexer,
            rich_indexer,
        ).contains(RpcModule::Indexer) && spec_adjust_rpc_modules(
            modules,
            indexer,
            rich_indexer,
        ).contains(RpcModule::RichIndexer)),
{
    lemma_adjust_rpc_modules_laws(modules, indexer, rich_indexer);
    let m1 = if indexer && !modules.contains(RpcModule::Indexer) {
        modules.push(RpcModule::Indexer)
    } else {
        modules
    };
    let m2 = spec_adjust_rpc_modules(modules, indexer, rich_indexer);
    if m2.contains(RpcModule::Indexer) {
        let i = choose|i: int| 0 <= i < m2.len() && m2[i] == RpcModule::Indexer;
        if i < modules.len() {
            assert(modules[i] == m2[i]);
        }
    }
    if m2.contains(RpcModule::RichIndexer) {
        let i = choose|i: int| 0 <= i < m2.len() && m2[i] == RpcModule::RichIndexer;
        if i < modules.len() {
            assert(modules[i] == m2[i]);
        } else if i < m1.len() {
            assert(m1[i] == RpcModule::Indexer);
        }
    }
    if modules.contains(RpcModule::Indexer) {
        let i = choose|i: int| 0 <= i < modules.len() && modules[i] == RpcModule::Indexer;
        assert(m2[i] == modules[i]);
    }
    if modules.contains(RpcModule::RichIndexer) {
        let i = choose|i: int| 0 <= i < modules.len() && modules[i] == RpcModule::RichIndexer;
        assert(m2[i] == modules[i]);
    }
}

/// Drops the assume-valid target where the store already holds its block:
/// from then on the node verifies every block.
pub fn check_assume_valid_target(target: &mut Option<Vec<u8>>, block_exists: bool)
    ensures
        opt_bytes(*final(target)) == (if (*old(target)) is Some && block_exists {
            None
        } else {
            opt_bytes(*old(target))
        }),
{
    if target.is_some() && block_exists {
        *target = None;
    }
}

} // verus!
