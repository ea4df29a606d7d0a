//! Sets of feature flags to switch on and off, how one such set is laid
//! over another, and how the flags of a release file correspond to the
//! flags on the chain.

use vstd::prelude::*;
use vstd::std_specs::convert::FromSpecImpl;
use vstd::string::StringExecFns;
use crate::text::{decimal, decimal_text};

verus! {

/// A feature of the chain that can be switched on or off, as a release file names it.
#[allow(non_camel_case_types)]
#[derive(Clone, Copy, Debug, PartialEq, Eq, Hash, Structural)]
pub enum FeatureFlag {
    CodeDependencyCheck,
    CollectAndDistributeGasFees,
    TreatFriendAsPrivate,
    Sha512AndRipeMd160Natives,
    LumioStdChainIdNatives,
    VMBinaryFormatV6,
    MultiEd25519PkValidateV2Natives,
    Blake2b256Native,
    ResourceGroups,
    MultisigAccounts,
    DelegationPools,
    CryptographyAlgebraNatives,
    Bls12381Structures,
    Ed25519PubkeyValidateReturnFalseWrongLength,
    StructConstructors,
    PeriodicalRewardRateReduction,
    PartialGovernanceVoting,
    SignatureCheckerV2,
    StorageSlotMetadata,
    ChargeInvariantViolation,
    DelegationPoolPartialGovernanceVoting,
    GasPayerEnabled,
    LumioUniqueIdentifiers,
    BulletproofsNatives,
    SignerNativeFormatFix,
    ModuleEvent,
    EmitFeeStatement,
    StorageDeletionRefund,
    AggregatorV2Api,
    SignatureCheckerV2ScriptFix,
    SaferResourceGroups,
    SaferMetadata,
    SingleSenderAuthenticator,
    SponsoredAutomaticAccountCreation,
    FeePayerAccountOptional,
    AggregatorV2DelayedFields,
    ConcurrentTokenV2,
    LimitMaxIdentifierLength,
    OperatorBeneficiaryChange,
    VMBinaryFormatV7,
    ResourceGroupsSplitInVmChangeSet,
    CommissionChangeDelegationPool,
    Bn254Structures,
    WebAuthnSignature,
    ReconfigureWithDkg,
    KeylessAccounts,
    KeylessButZklessAccounts,
    RemoveDetailedError,
    JwkConsensus,
    ConcurrentFungibleAssets,
    RefundableBytes,
    ObjectCodeDeployment,
    MaxObjectNestingCheck,
    KeylessAccountsWithPasskeys,
    MultisigV2Enhancement,
    DelegationPoolAllowlisting,
    ModuleEventMigration,
    RejectUnstableBytecode,
    TransactionContextExtension,
    CoinToFungibleAssetMigration,
    PrimaryAPTFungibleStoreAtUserAddress,
    ObjectNativeDerivedAddress,
    DispatchableFungibleAsset,
    NewAccountsDefaultToFaAptStore,
    OperationsDefaultToFaAptStore,
    AggregatorV2IsAtLeastApi,
    ConcurrentFungibleBalance,
    DefaultToConcurrentFungibleBalance,
    LimitVMTypeSize,
    AbortIfMultisigPayloadMismatch,
    DisallowUserNative,
    AllowSerializedScriptArgs,
    UseCompatibilityCheckerV2,
    EnableEnumTypes,
    EnableResourceAccessControl,
    RejectUnstableBytecodeForScript,
    FederatedKeyless,
    TransactionSimulationEnhancement,
    CollectionOwner,
    NativeMemoryOperations,
    EnableLoaderV2,
    DisallowInitModuleToPublishModules,
    EnableCallTreeAndInstructionVMCache,
    PermissionedSigner,
    AccountAbstraction,
    VMBinaryFormatV8,
    BulletproofsBatchNatives,
    DerivableAccountAbstraction,
    EnableFunctionValues,
    NewAccountsDefaultToFaStore,
    DefaultAccountResource,
    JwkConsensusPerKeyMode,
    TransactionPayloadV2,
    OrderlessTransactions,
    EnableLazyLoading,
    CalculateTransactionFeeForDistribution,
    DistributeTransactionFee,
    MonotonicallyIncreasingCounter,
    EnableCaptureOption,
}

/// A feature of the chain that can be switched on or off, as the chain names it.
#[allow(non_camel_case_types)]
#[derive(Clone, Copy, Debug, PartialEq, Eq, Hash, Structural)]
pub enum LumioFeatureFlag {
    CODE_DEPENDENCY_CHECK,
    _DEPRECATED_COLLECT_AND_DISTRIBUTE_GAS_FEES,
    TREAT_FRIEND_AS_PRIVATE,
    SHA_512_AND_RIPEMD_160_NATIVES,
    LUMIO_STD_CHAIN_ID_NATIVES,
    VM_BINARY_FORMAT_V6,
    MULTI_ED25519_PK_VALIDATE_V2_NATIVES,
    BLAKE2B_256_NATIVE,
    RESOURCE_GROUPS,
    MULTISIG_ACCOUNTS,
    DELEGATION_POOLS,
    CRYPTOGRAPHY_ALGEBRA_NATIVES,
    BLS12_381_STRUCTURES,
    ED25519_PUBKEY_VALIDATE_RETURN_FALSE_WRONG_LENGTH,
    STRUCT_CONSTRUCTORS,
    PERIODICAL_REWARD_RATE_DECREASE,
    PARTIAL_GOVERNANCE_VOTING,
    SIGNATURE_CHECKER_V2,
    STORAGE_SLOT_METADATA,
    CHARGE_INVARIANT_VIOLATION,
    DELEGATION_POOL_PARTIAL_GOVERNANCE_VOTING,
    GAS_PAYER_ENABLED,
    LUMIO_UNIQUE_IDENTIFIERS,
    BULLETPROOFS_NATIVES,
    SIGNER_NATIVE_FORMAT_FIX,
    MODULE_EVENT,
    EMIT_FEE_STATEMENT,
    STORAGE_DELETION_REFUND,
    AGGREGATOR_V2_API,
    SIGNATURE_CHECKER_V2_SCRIPT_FIX,
    SAFER_RESOURCE_GROUPS,
    SAFER_METADATA,
    SINGLE_SENDER_AUTHENTICATOR,
    SPONSORED_AUTOMATIC_ACCOUNT_V1_CREATION,
    FEE_PAYER_ACCOUNT_OPTIONAL,
    AGGREGATOR_V2_DELAYED_FIELDS,
    CONCURRENT_TOKEN_V2,
    LIMIT_MAX_IDENTIFIER_LENGTH,
    OPERATOR_BENEFICIARY_CHANGE,
    VM_BINARY_FORMAT_V7,
    RESOURCE_GROUPS_SPLIT_IN_VM_CHANGE_SET,
    COMMISSION_CHANGE_DELEGATION_POOL,
    BN254_STRUCTURES,
    WEBAUTHN_SIGNATURE,
    _DEPRECATED_RECONFIGURE_WITH_DKG,
    KEYLESS_ACCOUNTS,
    KEYLESS_BUT_ZKLESS_ACCOUNTS,
    _DEPRECATED_REMOVE_DETAILED_ERROR_FROM_HASH,
    JWK_CONSENSUS,
    CONCURRENT_FUNGIBLE_ASSETS,
    REFUNDABLE_BYTES,
    OBJECT_CODE_DEPLOYMENT,
    MAX_OBJECT_NESTING_CHECK,
    KEYLESS_ACCOUNTS_WITH_PASSKEYS,
    MULTISIG_V2_ENHANCEMENT,
    DELEGATION_POOL_ALLOWLISTING,
    MODULE_EVENT_MIGRATION,
    _REJECT_UNSTABLE_BYTECODE,
    TRANSACTION_CONTEXT_EXTENSION,
    COIN_TO_FUNGIBLE_ASSET_MIGRATION,
    PRIMARY_LUM_FUNGIBLE_STORE_AT_USER_ADDRESS,
    OBJECT_NATIVE_DERIVED_ADDRESS,
    DISPATCHABLE_FUNGIBLE_ASSET,
    NEW_ACCOUNTS_DEFAULT_TO_FA_LUM_STORE,
    OPERATIONS_DEFAULT_TO_FA_LUM_STORE,
    AGGREGATOR_V2_IS_AT_LEAST_API,
    CONCURRENT_FUNGIBLE_BALANCE,
    DEFAULT_TO_CONCURRENT_FUNGIBLE_BALANCE,
    _LIMIT_VM_TYPE_SIZE,
    ABORT_IF_MULTISIG_PAYLOAD_MISMATCH,
    _DISALLOW_USER_NATIVES,
    ALLOW_SERIALIZED_SCRIPT_ARGS,
    _USE_COMPATIBILITY_CHECKER_V2,
    ENABLE_ENUM_TYPES,
    ENABLE_RESOURCE_ACCESS_CONTROL,
    _REJECT_UNSTABLE_BYTECODE_FOR_SCRIPT,
    FEDERATED_KEYLESS,
    TRANSACTION_SIMULATION_ENHANCEMENT,
    COLLECTION_OWNER,
    NATIVE_MEMORY_OPERATIONS,
    _ENABLE_LOADER_V2,
    _DISALLOW_INIT_MODULE_TO_PUBLISH_MODULES,
    ENABLE_CALL_TREE_AND_INSTRUCTION_VM_CACHE,
    PERMISSIONED_SIGNER,
    ACCOUNT_ABSTRACTION,
    VM_BINARY_FORMAT_V8,
    BULLETPROOFS_BATCH_NATIVES,
    DERIVABLE_ACCOUNT_ABSTRACTION,
    ENABLE_FUNCTION_VALUES,
    NEW_ACCOUNTS_DEFAULT_TO_FA_STORE,
    DEFAULT_ACCOUNT_RESOURCE,
    JWK_CONSENSUS_PER_KEY_MODE,
    TRANSACTION_PAYLOAD_V2,
    ORDERLESS_TRANSACTIONS,
    ENABLE_LAZY_LOADING,
    CALCULATE_TRANSACTION_FEE_FOR_DISTRIBUTION,
    DISTRIBUTE_TRANSACTION_FEE,
    MONOTONICALLY_INCREASING_COUNTER,
    ENABLE_CAPTURE_OPTION,
}

/// Number of feature flags.
pub const FEATURE_FLAG_COUNT: usize = 99;

impl FeatureFlag {
    /// Position of the flag in the list of all flags.
    pub open spec fn position(self) -> int {
        match self {
            FeatureFlag::CodeDependencyCheck => 0,
            FeatureFlag::CollectAndDistributeGasFees => 1,
            FeatureFlag::TreatFriendAsPrivate => 2,
            FeatureFlag::Sha512AndRipeMd160Natives => 3,
            FeatureFlag::LumioStdChainIdNatives => 4,
            FeatureFlag::VMBinaryFormatV6 => 5,
            FeatureFlag::MultiEd25519PkValidateV2Natives => 6,
            FeatureFlag::Blake2b256Native => 7,
            FeatureFlag::ResourceGroups => 8,
            FeatureFlag::MultisigAccounts => 9,
            FeatureFlag::DelegationPools => 10,
            FeatureFlag::CryptographyAlgebraNatives => 11,
            FeatureFlag::Bls12381Structures => 12,
            FeatureFlag::Ed25519PubkeyValidateReturnFalseWrongLength => 13,
            FeatureFlag::StructConstructors => 14,
            FeatureFlag::PeriodicalRewardRateReduction => 15,
            FeatureFlag::PartialGovernanceVoting => 16,
            FeatureFlag::SignatureCheckerV2 => 17,
            FeatureFlag::StorageSlotMetadata => 18,
            FeatureFlag::ChargeInvariantViolation => 19,
            FeatureFlag::DelegationPoolPartialGovernanceVoting => 20,
            FeatureFlag::GasPayerEnabled => 21,
            FeatureFlag::LumioUniqueIdentifiers => 22,
            FeatureFlag::BulletproofsNatives => 23,
            FeatureFlag::SignerNativeFormatFix => 24,
            FeatureFlag::ModuleEvent => 25,
            FeatureFlag::EmitFeeStatement => 26,
            FeatureFlag::StorageDeletionRefund => 27,
            FeatureFlag::AggregatorV2Api => 28,
            FeatureFlag::SignatureCheckerV2ScriptFix => 29,
            FeatureFlag::SaferResourceGroups => 30,
            FeatureFlag::SaferMetadata => 31,
            FeatureFlag::SingleSenderAuthenticator => 32,
            FeatureFlag::SponsoredAutomaticAccountCreation => 33,
            FeatureFlag::FeePayerAccountOptional => 34,
            FeatureFlag::AggregatorV2DelayedFields => 35,
            FeatureFlag::ConcurrentTokenV2 => 36,
            FeatureFlag::LimitMaxIdentifierLength => 37,
            FeatureFlag::OperatorBeneficiaryChange => 38,
            FeatureFlag::VMBinaryFormatV7 => 39,
            FeatureFlag::ResourceGroupsSplitInVmChangeSet => 40,
            FeatureFlag::CommissionChangeDelegationPool => 41,
            FeatureFlag::Bn254Structures => 42,
            FeatureFlag::WebAuthnSignature => 43,
            FeatureFlag::ReconfigureWithDkg => 44,
            FeatureFlag::KeylessAccounts => 45,
            FeatureFlag::KeylessButZklessAccounts => 46,
            FeatureFlag::RemoveDetailedError => 47,
            FeatureFlag::JwkConsensus => 48,
            FeatureFlag::ConcurrentFungibleAssets => 49,
            FeatureFlag::RefundableBytes => 50,
            FeatureFlag::ObjectCodeDeployment => 51,
            FeatureFlag::MaxObjectNestingCheck => 52,
            FeatureFlag::KeylessAccountsWithPasskeys => 53,
            FeatureFlag::MultisigV2Enhancement => 54,
            FeatureFlag::DelegationPoolAllowlisting => 55,
            FeatureFlag::ModuleEventMigration => 56,
            FeatureFlag::RejectUnstableBytecode => 57,
            FeatureFlag::TransactionContextExtension => 58,
            FeatureFlag::CoinToFungibleAssetMigration => 59,
            FeatureFlag::PrimaryAPTFungibleStoreAtUserAddress => 60,
            FeatureFlag::ObjectNativeDerivedAddress => 61,
            FeatureFlag::DispatchableFungibleAsset => 62,
            FeatureFlag::NewAccountsDefaultToFaAptStore => 63,
            FeatureFlag::OperationsDefaultToFaAptStore => 64,
            FeatureFlag::AggregatorV2IsAtLeastApi => 65,
            FeatureFlag::ConcurrentFungibleBalance => 66,
            FeatureFlag::DefaultToConcurrentFungibleBalance => 67,
            FeatureFlag::LimitVMTypeSize => 68,
            FeatureFlag::AbortIfMultisigPayloadMismatch => 69,
            FeatureFlag::DisallowUserNative => 70,
            FeatureFlag::AllowSerializedScriptArgs => 71,
            FeatureFlag::UseCompatibilityCheckerV2 => 72,
            FeatureFlag::EnableEnumTypes => 73,
            FeatureFlag::EnableResourceAccessControl => 74,
            FeatureFlag::RejectUnstableBytecodeForScript => 75,
            FeatureFlag::FederatedKeyless => 76,
            FeatureFlag::TransactionSimulationEnhancement => 77,
            FeatureFlag::CollectionOwner => 78,
            FeatureFlag::NativeMemoryOperations => 79,
            FeatureFlag::EnableLoaderV2 => 80,
            FeatureFlag::DisallowInitModuleToPublishModules => 81,
            FeatureFlag::EnableCallTreeAndInstructionVMCache => 82,
            FeatureFlag::PermissionedSigner => 83,
            FeatureFlag::AccountAbstraction => 84,
            FeatureFlag::VMBinaryFormatV8 => 85,
            FeatureFlag::BulletproofsBatchNatives => 86,
            FeatureFlag::DerivableAccountAbstraction => 87,
            FeatureFlag::EnableFunctionValues => 88,
            FeatureFlag::NewAccountsDefaultToFaStore => 89,
            FeatureFlag::DefaultAccountResource => 90,
            FeatureFlag::JwkConsensusPerKeyMode => 91,
            FeatureFlag::TransactionPayloadV2 => 92,
            FeatureFlag::OrderlessTransactions => 93,
            FeatureFlag::EnableLazyLoading => 94,
            FeatureFlag::CalculateTransactionFeeForDistribution => 95,
            FeatureFlag::DistributeTransactionFee => 96,
            FeatureFlag::MonotonicallyIncreasingCounter => 97,
            FeatureFlag::EnableCaptureOption => 98,
        }
    }

    /// The flag on the chain that this flag stands for.
    pub open spec fn on_chain(self) -> LumioFeatureFlag {
        match self {
            FeatureFlag::CodeDependencyCheck => LumioFeatureFlag::CODE_DEPENDENCY_CHECK,
            FeatureFlag::CollectAndDistributeGasFees => LumioFeatureFlag::_DEPRECATED_COLLECT_AND_DISTRIBUTE_GAS_FEES,
            FeatureFlag::TreatFriendAsPrivate => LumioFeatureFlag::TREAT_FRIEND_AS_PRIVATE,
            FeatureFlag::Sha512AndRipeMd160Natives => LumioFeatureFlag::SHA_512_AND_RIPEMD_160_NATIVES,
            FeatureFlag::LumioStdChainIdNatives => LumioFeatureFlag::LUMIO_STD_CHAIN_ID_NATIVES,
            FeatureFlag::VMBinaryFormatV6 => LumioFeatureFlag::VM_BINARY_FORMAT_V6,
            FeatureFlag::MultiEd25519PkValidateV2Natives => LumioFeatureFlag::MULTI_ED25519_PK_VALIDATE_V2_NATIVES,
            FeatureFlag::Blake2b256Native => LumioFeatureFlag::BLAKE2B_256_NATIVE,
            FeatureFlag::ResourceGroups => LumioFeatureFlag::RESOURCE_GROUPS,
            FeatureFlag::MultisigAccounts => LumioFeatureFlag::MULTISIG_ACCOUNTS,
            FeatureFlag::DelegationPools => LumioFeatureFlag::DELEGATION_POOLS,
            FeatureFlag::CryptographyAlgebraNatives => LumioFeatureFlag::CRYPTOGRAPHY_ALGEBRA_NATIVES,
            FeatureFlag::Bls12381Structures => LumioFeatureFlag::BLS12_381_STRUCTURES,
            FeatureFlag::Ed25519PubkeyValidateReturnFalseWrongLength => LumioFeatureFlag::ED25519_PUBKEY_VALIDATE_RETURN_FALSE_WRONG_LENGTH,
            FeatureFlag::StructConstructors => LumioFeatureFlag::STRUCT_CONSTRUCTORS,
            FeatureFlag::PeriodicalRewardRateReduction => LumioFeatureFlag::PERIODICAL_REWARD_RATE_DECREASE,
            FeatureFlag::PartialGovernanceVoting => LumioFeatureFlag::PARTIAL_GOVERNANCE_VOTING,
            FeatureFlag::SignatureCheckerV2 => LumioFeatureFlag::SIGNATURE_CHECKER_V2,
            FeatureFlag::StorageSlotMetadata => LumioFeatureFlag::STORAGE_SLOT_METADATA,
            FeatureFlag::ChargeInvariantViolation => LumioFeatureFlag::CHARGE_INVARIANT_VIOLATION,
            FeatureFlag::DelegationPoolPartialGovernanceVoting => LumioFeatureFlag::DELEGATION_POOL_PARTIAL_GOVERNANCE_VOTING,
            FeatureFlag::GasPayerEnabled => LumioFeatureFlag::GAS_PAYER_ENABLED,
            FeatureFlag::LumioUniqueIdentifiers => LumioFeatureFlag::LUMIO_UNIQUE_IDENTIFIERS,
            FeatureFlag::BulletproofsNatives => LumioFeatureFlag::BULLETPROOFS_NATIVES,
            FeatureFlag::SignerNativeFormatFix => LumioFeatureFlag::SIGNER_NATIVE_FORMAT_FIX,
            FeatureFlag::ModuleEvent => LumioFeatureFlag::MODULE_EVENT,
            FeatureFlag::EmitFeeStatement => LumioFeatureFlag::EMIT_FEE_STATEMENT,
            FeatureFlag::StorageDeletionRefund => LumioFeatureFlag::STORAGE_DELETION_REFUND,
            FeatureFlag::AggregatorV2Api => LumioFeatureFlag::AGGREGATOR_V2_API,
            FeatureFlag::SignatureCheckerV2ScriptFix => LumioFeatureFlag::SIGNATURE_CHECKER_V2_SCRIPT_FIX,
            FeatureFlag::SaferResourceGroups => LumioFeatureFlag::SAFER_RESOURCE_GROUPS,
            FeatureFlag::SaferMetadata => LumioFeatureFlag::SAFER_METADATA,
            FeatureFlag::SingleSenderAuthenticator => LumioFeatureFlag::SINGLE_SENDER_AUTHENTICATOR,
            FeatureFlag::SponsoredAutomaticAccountCreation => LumioFeatureFlag::SPONSORED_AUTOMATIC_ACCOUNT_V1_CREATION,
            FeatureFlag::FeePayerAccountOptional => LumioFeatureFlag::FEE_PAYER_ACCOUNT_OPTIONAL,
            FeatureFlag::AggregatorV2DelayedFields => LumioFeatureFlag::AGGREGATOR_V2_DELAYED_FIELDS,
            FeatureFlag::ConcurrentTokenV2 => LumioFeatureFlag::CONCURRENT_TOKEN_V2,
            FeatureFlag::LimitMaxIdentifierLength => LumioFeatureFlag::LIMIT_MAX_IDENTIFIER_LENGTH,
            FeatureFlag::OperatorBeneficiaryChange => LumioFeatureFlag::OPERATOR_BENEFICIARY_CHANGE,
            FeatureFlag::VMBinaryFormatV7 => LumioFeatureFlag::VM_BINARY_FORMAT_V7,
            FeatureFlag::ResourceGroupsSplitInVmChangeSet => LumioFeatureFlag::RESOURCE_GROUPS_SPLIT_IN_VM_CHANGE_SET,
            FeatureFlag::CommissionChangeDelegationPool => LumioFeatureFlag::COMMISSION_CHANGE_DELEGATION_POOL,
            FeatureFlag::Bn254Structures => LumioFeatureFlag::BN254_STRUCTURES,
            FeatureFlag::WebAuthnSignature => LumioFeatureFlag::WEBAUTHN_SIGNATURE,
            FeatureFlag::ReconfigureWithDkg => LumioFeatureFlag::_DEPRECATED_RECONFIGURE_WITH_DKG,
            FeatureFlag::KeylessAccounts => LumioFeatureFlag::KEYLESS_ACCOUNTS,
            FeatureFlag::KeylessButZklessAccounts => LumioFeatureFlag::KEYLESS_BUT_ZKLESS_ACCOUNTS,
            FeatureFlag::RemoveDetailedError => LumioFeatureFlag::_DEPRECATED_REMOVE_DETAILED_ERROR_FROM_HASH,
            FeatureFlag::JwkConsensus => LumioFeatureFlag::JWK_CONSENSUS,
            FeatureFlag::ConcurrentFungibleAssets => LumioFeatureFlag::CONCURRENT_FUNGIBLE_ASSETS,
            FeatureFlag::RefundableBytes => LumioFeatureFlag::REFUNDABLE_BYTES,
            FeatureFlag::ObjectCodeDeployment => LumioFeatureFlag::OBJECT_CODE_DEPLOYMENT,
            FeatureFlag::MaxObjectNestingCheck => LumioFeatureFlag::MAX_OBJECT_NESTING_CHECK,
            FeatureFlag::KeylessAccountsWithPasskeys => LumioFeatureFlag::KEYLESS_ACCOUNTS_WITH_PASSKEYS,
            FeatureFlag::MultisigV2Enhancement => LumioFeatureFlag::MULTISIG_V2_ENHANCEMENT,
            FeatureFlag::DelegationPoolAllowlisting => LumioFeatureFlag::DELEGATION_POOL_ALLOWLISTING,
            FeatureFlag::ModuleEventMigration => LumioFeatureFlag::MODULE_EVENT_MIGRATION,
            FeatureFlag::RejectUnstableBytecode => LumioFeatureFlag::_REJECT_UNSTABLE_BYTECODE,
            FeatureFlag::TransactionContextExtension => LumioFeatureFlag::TRANSACTION_CONTEXT_EXTENSION,
            FeatureFlag::CoinToFungibleAssetMigration => LumioFeatureFlag::COIN_TO_FUNGIBLE_ASSET_MIGRATION,
            FeatureFlag::PrimaryAPTFungibleStoreAtUserAddress => LumioFeatureFlag::PRIMARY_LUM_FUNGIBLE_STORE_AT_USER_ADDRESS,
            FeatureFlag::ObjectNativeDerivedAddress => LumioFeatureFlag::OBJECT_NATIVE_DERIVED_ADDRESS,
            FeatureFlag::DispatchableFungibleAsset => LumioFeatureFlag::DISPATCHABLE_FUNGIBLE_ASSET,
            FeatureFlag::NewAccountsDefaultToFaAptStore => LumioFeatureFlag::NEW_ACCOUNTS_DEFAULT_TO_FA_LUM_STORE,
            FeatureFlag::OperationsDefaultToFaAptStore => LumioFeatureFlag::OPERATIONS_DEFAULT_TO_FA_LUM_STORE,
            FeatureFlag::AggregatorV2IsAtLeastApi => LumioFeatureFlag::AGGREGATOR_V2_IS_AT_LEAST_API,
            FeatureFlag::ConcurrentFungibleBalance => LumioFeatureFlag::CONCURRENT_FUNGIBLE_BALANCE,
            FeatureFlag::DefaultToConcurrentFungibleBalance => LumioFeatureFlag::DEFAULT_TO_CONCURRENT_FUNGIBLE_BALANCE,
            FeatureFlag::LimitVMTypeSize => LumioFeatureFlag::_LIMIT_VM_TYPE_SIZE,
            FeatureFlag::AbortIfMultisigPayloadMismatch => LumioFeatureFlag::ABORT_IF_MULTISIG_PAYLOAD_MISMATCH,
            FeatureFlag::DisallowUserNative => LumioFeatureFlag::_DISALLOW_USER_NATIVES,
            FeatureFlag::AllowSerializedScriptArgs => LumioFeatureFlag::ALLOW_SERIALIZED_SCRIPT_ARGS,
            FeatureFlag::UseCompatibilityCheckerV2 => LumioFeatureFlag::_USE_COMPATIBILITY_CHECKER_V2,
            FeatureFlag::EnableEnumTypes => LumioFeatureFlag::ENABLE_ENUM_TYPES,
            FeatureFlag::EnableResourceAccessControl => LumioFeatureFlag::ENABLE_RESOURCE_ACCESS_CONTROL,
            FeatureFlag::RejectUnstableBytecodeForScript => LumioFeatureFlag::_REJECT_UNSTABLE_BYTECODE_FOR_SCRIPT,
            FeatureFlag::FederatedKeyless => LumioFeatureFlag::FEDERATED_KEYLESS,
            FeatureFlag::TransactionSimulationEnhancement => LumioFeatureFlag::TRANSACTION_SIMULATION_ENHANCEMENT,
            FeatureFlag::CollectionOwner => LumioFeatureFlag::COLLECTION_OWNER,
            FeatureFlag::NativeMemoryOperations => LumioFeatureFlag::NATIVE_MEMORY_OPERATIONS,
            FeatureFlag::EnableLoaderV2 => LumioFeatureFlag::_ENABLE_LOADER_V2,
            FeatureFlag::DisallowInitModuleToPublishModules => LumioFeatureFlag::_DISALLOW_INIT_MODULE_TO_PUBLISH_MODULES,
            FeatureFlag::EnableCallTreeAndInstructionVMCache => LumioFeatureFlag::ENABLE_CALL_TREE_AND_INSTRUCTION_VM_CACHE,
            FeatureFlag::PermissionedSigner => LumioFeatureFlag::PERMISSIONED_SIGNER,
            FeatureFlag::AccountAbstraction => LumioFeatureFlag::ACCOUNT_ABSTRACTION,
            FeatureFlag::VMBinaryFormatV8 => LumioFeatureFlag::VM_BINARY_FORMAT_V8,
            FeatureFlag::BulletproofsBatchNatives => LumioFeatureFlag::BULLETPROOFS_BATCH_NATIVES,
            FeatureFlag::DerivableAccountAbstraction => LumioFeatureFlag::DERIVABLE_ACCOUNT_ABSTRACTION,
            FeatureFlag::EnableFunctionValues => LumioFeatureFlag::ENABLE_FUNCTION_VALUES,
            FeatureFlag::NewAccountsDefaultToFaStore => LumioFeatureFlag::NEW_ACCOUNTS_DEFAULT_TO_FA_STORE,
            FeatureFlag::DefaultAccountResource => LumioFeatureFlag::DEFAULT_ACCOUNT_RESOURCE,
            FeatureFlag::JwkConsensusPerKeyMode => LumioFeatureFlag::JWK_CONSENSUS_PER_KEY_MODE,
            FeatureFlag::TransactionPayloadV2 => LumioFeatureFlag::TRANSACTION_PAYLOAD_V2,
            FeatureFlag::OrderlessTransactions => LumioFeatureFlag::ORDERLESS_TRANSACTIONS,
            FeatureFlag::EnableLazyLoading => LumioFeatureFlag::ENABLE_LAZY_LOADING,
            FeatureFlag::CalculateTransactionFeeForDistribution => LumioFeatureFlag::CALCULATE_TRANSACTION_FEE_FOR_DISTRIBUTION,
            FeatureFlag::DistributeTransactionFee => LumioFeatureFlag::DISTRIBUTE_TRANSACTION_FEE,
            FeatureFlag::MonotonicallyIncreasingCounter => LumioFeatureFlag::MONOTONICALLY_INCREASING_COUNTER,
            FeatureFlag::EnableCaptureOption => LumioFeatureFlag::ENABLE_CAPTURE_OPTION,
        }
    }

    /// The name of the flag.
    pub open spec fn spec_name(self) -> Seq<char> {
        match self {
            FeatureFlag::CodeDependencyCheck => "CodeDependencyCheck"@,
            FeatureFlag::CollectAndDistributeGasFees => "CollectAndDistributeGasFees"@,
            FeatureFlag::TreatFriendAsPrivate => "TreatFriendAsPrivate"@,
            FeatureFlag::Sha512AndRipeMd160Natives => "Sha512AndRipeMd160Natives"@,
            FeatureFlag::LumioStdChainIdNatives => "LumioStdChainIdNatives"@,
            FeatureFlag::VMBinaryFormatV6 => "VMBinaryFormatV6"@,
            FeatureFlag::MultiEd25519PkValidateV2Natives => "MultiEd25519PkValidateV2Natives"@,
            FeatureFlag::Blake2b256Native => "Blake2b256Native"@,
            FeatureFlag::ResourceGroups => "ResourceGroups"@,
            FeatureFlag::MultisigAccounts => "MultisigAccounts"@,
            FeatureFlag::DelegationPools => "DelegationPools"@,
            FeatureFlag::CryptographyAlgebraNatives => "CryptographyAlgebraNatives"@,
            FeatureFlag::Bls12381Structures => "Bls12381Structures"@,
            FeatureFlag::Ed25519PubkeyValidateReturnFalseWrongLength => "Ed25519PubkeyValidateReturnFalseWrongLength"@,
            FeatureFlag::StructConstructors => "StructConstructors"@,
            FeatureFlag::PeriodicalRewardRateReduction => "PeriodicalRewardRateReduction"@,
            FeatureFlag::PartialGovernanceVoting => "PartialGovernanceVoting"@,
            FeatureFlag::SignatureCheckerV2 => "SignatureCheckerV2"@,
            FeatureFlag::StorageSlotMetadata => "StorageSlotMetadata"@,
            FeatureFlag::ChargeInvariantViolation => "ChargeInvariantViolation"@,
            FeatureFlag::DelegationPoolPartialGovernanceVoting => "DelegationPoolPartialGovernanceVoting"@,
            FeatureFlag::GasPayerEnabled => "GasPayerEnabled"@,
            FeatureFlag::LumioUniqueIdentifiers => "LumioUniqueIdentifiers"@,
            FeatureFlag::BulletproofsNatives => "BulletproofsNatives"@,
            FeatureFlag::SignerNativeFormatFix => "SignerNativeFormatFix"@,
            FeatureFlag::ModuleEvent => "ModuleEvent"@,
            FeatureFlag::EmitFeeStatement => "EmitFeeStatement"@,
            FeatureFlag::StorageDeletionRefund => "StorageDeletionRefund"@,
            FeatureFlag::AggregatorV2Api => "AggregatorV2Api"@,
            FeatureFlag::SignatureCheckerV2ScriptFix => "SignatureCheckerV2ScriptFix"@,
            FeatureFlag::SaferResourceGroups => "SaferResourceGroups"@,
            FeatureFlag::SaferMetadata => "SaferMetadata"@,
            FeatureFlag::SingleSenderAuthenticator => "SingleSenderAuthenticator"@,
            FeatureFlag::SponsoredAutomaticAccountCreation => "SponsoredAutomaticAccountCreation"@,
            FeatureFlag::FeePayerAccountOptional => "FeePayerAccountOptional"@,
            FeatureFlag::AggregatorV2DelayedFields => "AggregatorV2DelayedFields"@,
            FeatureFlag::ConcurrentTokenV2 => "ConcurrentTokenV2"@,
            FeatureFlag::LimitMaxIdentifierLength => "LimitMaxIdentifierLength"@,
            FeatureFlag::OperatorBeneficiaryChange => "OperatorBeneficiaryChange"@,
            FeatureFlag::VMBinaryFormatV7 => "VMBinaryFormatV7"@,
            FeatureFlag::ResourceGroupsSplitInVmChangeSet => "ResourceGroupsSplitInVmChangeSet"@,
            FeatureFlag::CommissionChangeDelegationPool => "CommissionChangeDelegationPool"@,
            FeatureFlag::Bn254Structures => "Bn254Structures"@,
            FeatureFlag::WebAuthnSignature => "WebAuthnSignature"@,
            FeatureFlag::ReconfigureWithDkg => "ReconfigureWithDkg"@,
            FeatureFlag::KeylessAccounts => "KeylessAccounts"@,
            FeatureFlag::KeylessButZklessAccounts => "KeylessButZklessAccounts"@,
            FeatureFlag::RemoveDetailedError => "RemoveDetailedError"@,
            FeatureFlag::JwkConsensus => "JwkConsensus"@,
            FeatureFlag::ConcurrentFungibleAssets => "ConcurrentFungibleAssets"@,
            FeatureFlag::RefundableBytes => "RefundableBytes"@,
            FeatureFlag::ObjectCodeDeployment => "ObjectCodeDeployment"@,
            FeatureFlag::MaxObjectNestingCheck => "MaxObjectNestingCheck"@,
            FeatureFlag::KeylessAccountsWithPasskeys => "KeylessAccountsWithPasskeys"@,
            FeatureFlag::MultisigV2Enhancement => "MultisigV2Enhancement"@,
            FeatureFlag::DelegationPoolAllowlisting => "DelegationPoolAllowlisting"@,
            FeatureFlag::ModuleEventMigration => "ModuleEventMigration"@,
            FeatureFlag::RejectUnstableBytecode => "RejectUnstableBytecode"@,
            FeatureFlag::TransactionContextExtension => "TransactionContextExtension"@,
            FeatureFlag::CoinToFungibleAssetMigration => "CoinToFungibleAssetMigration"@,
            FeatureFlag::PrimaryAPTFungibleStoreAtUserAddress => "PrimaryAPTFungibleStoreAtUserAddress"@,
            FeatureFlag::ObjectNativeDerivedAddress => "ObjectNativeDerivedAddress"@,
            FeatureFlag::DispatchableFungibleAsset => "DispatchableFungibleAsset"@,
            FeatureFlag::NewAccountsDefaultToFaAptStore => "NewAccountsDefaultToFaAptStore"@,
            FeatureFlag::OperationsDefaultToFaAptStore => "OperationsDefaultToFaAptStore"@,
            FeatureFlag::AggregatorV2IsAtLeastApi => "AggregatorV2IsAtLeastApi"@,
            FeatureFlag::ConcurrentFungibleBalance => "ConcurrentFungibleBalance"@,
            FeatureFlag::DefaultToConcurrentFungibleBalance => "DefaultToConcurrentFungibleBalance"@,
            FeatureFlag::LimitVMTypeSize => "LimitVMTypeSize"@,
            FeatureFlag::AbortIfMultisigPayloadMismatch => "AbortIfMultisigPayloadMismatch"@,
            FeatureFlag::DisallowUserNative => "DisallowUserNative"@,
            FeatureFlag::AllowSerializedScriptArgs => "AllowSerializedScriptArgs"@,
            FeatureFlag::UseCompatibilityCheckerV2 => "UseCompatibilityCheckerV2"@,
            FeatureFlag::EnableEnumTypes => "EnableEnumTypes"@,
            FeatureFlag::EnableResourceAccessControl => "EnableResourceAccessControl"@,
            FeatureFlag::RejectUnstableBytecodeForScript => "RejectUnstableBytecodeForScript"@,
            FeatureFlag::FederatedKeyless => "FederatedKeyless"@,
            FeatureFlag::TransactionSimulationEnhancement => "TransactionSimulationEnhancement"@,
            FeatureFlag::CollectionOwner => "CollectionOwner"@,
            FeatureFlag::NativeMemoryOperations => "NativeMemoryOperations"@,
            FeatureFlag::EnableLoaderV2 => "EnableLoaderV2"@,
            FeatureFlag::DisallowInitModuleToPublishModules => "DisallowInitModuleToPublishModules"@,
            FeatureFlag::EnableCallTreeAndInstructionVMCache => "EnableCallTreeAndInstructionVMCache"@,
            FeatureFlag::PermissionedSigner => "PermissionedSigner"@,
            FeatureFlag::AccountAbstraction => "AccountAbstraction"@,
            FeatureFlag::VMBinaryFormatV8 => "VMBinaryFormatV8"@,
            FeatureFlag::BulletproofsBatchNatives => "BulletproofsBatchNatives"@,
            FeatureFlag::DerivableAccountAbstraction => "DerivableAccountAbstraction"@,
            FeatureFlag::EnableFunctionValues => "EnableFunctionValues"@,
            FeatureFlag::NewAccountsDefaultToFaStore => "NewAccountsDefaultToFaStore"@,
            FeatureFlag::DefaultAccountResource => "DefaultAccountResource"@,
            FeatureFlag::JwkConsensusPerKeyMode => "JwkConsensusPerKeyMode"@,
            FeatureFlag::TransactionPayloadV2 => "TransactionPayloadV2"@,
            FeatureFlag::OrderlessTransactions => "OrderlessTransactions"@,
            FeatureFlag::EnableLazyLoading => "EnableLazyLoading"@,
            FeatureFlag::CalculateTransactionFeeForDistribution => "CalculateTransactionFeeForDistribution"@,
            FeatureFlag::DistributeTransactionFee => "DistributeTransactionFee"@,
            FeatureFlag::MonotonicallyIncreasingCounter => "MonotonicallyIncreasingCounter"@,
            FeatureFlag::EnableCaptureOption => "EnableCaptureOption"@,
        }
    }

    /// The name of the flag.
    pub fn name(&self) -> (text: &'static str)
        ensures
            text@ == self.spec_name(),
    {
        match self {
            FeatureFlag::CodeDependencyCheck => "CodeDependencyCheck",
            FeatureFlag::CollectAndDistributeGasFees => "CollectAndDistributeGasFees",
            FeatureFlag::TreatFriendAsPrivate => "TreatFriendAsPrivate",
            FeatureFlag::Sha512AndRipeMd160Natives => "Sha512AndRipeMd160Natives",
            FeatureFlag::LumioStdChainIdNatives => "LumioStdChainIdNatives",
            FeatureFlag::VMBinaryFormatV6 => "VMBinaryFormatV6",
            FeatureFlag::MultiEd25519PkValidateV2Natives => "MultiEd25519PkValidateV2Natives",
            FeatureFlag::Blake2b256Native => "Blake2b256Native",
            FeatureFlag::ResourceGroups => "ResourceGroups",
            FeatureFlag::MultisigAccounts => "MultisigAccounts",
            FeatureFlag::DelegationPools => "DelegationPools",
            FeatureFlag::CryptographyAlgebraNatives => "CryptographyAlgebraNatives",
            FeatureFlag::Bls12381Structures => "Bls12381Structures",
            FeatureFlag::Ed25519PubkeyValidateReturnFalseWrongLength => "Ed25519PubkeyValidateReturnFalseWrongLength",
            FeatureFlag::StructConstructors => "StructConstructors",
            FeatureFlag::PeriodicalRewardRateReduction => "PeriodicalRewardRateReduction",
            FeatureFlag::PartialGovernanceVoting => "PartialGovernanceVoting",
            FeatureFlag::SignatureCheckerV2 => "SignatureCheckerV2",
            FeatureFlag::StorageSlotMetadata => "StorageSlotMetadata",
            FeatureFlag::ChargeInvariantViolation => "ChargeInvariantViolation",
            FeatureFlag::DelegationPoolPartialGovernanceVoting => "DelegationPoolPartialGovernanceVoting",
            FeatureFlag::GasPayerEnabled => "GasPayerEnabled",
            FeatureFlag::LumioUniqueIdentifiers => "LumioUniqueIdentifiers",
            FeatureFlag::BulletproofsNatives => "BulletproofsNatives",
            FeatureFlag::SignerNativeFormatFix => "SignerNativeFormatFix",
            FeatureFlag::ModuleEvent => "ModuleEvent",
            FeatureFlag::EmitFeeStatement => "EmitFeeStatement",
            FeatureFlag::StorageDeletionRefund => "StorageDeletionRefund",
            FeatureFlag::AggregatorV2Api => "AggregatorV2Api",
            FeatureFlag::SignatureCheckerV2ScriptFix => "SignatureCheckerV2ScriptFix",
            FeatureFlag::SaferResourceGroups => "SaferResourceGroups",
            FeatureFlag::SaferMetadata => "SaferMetadata",
            FeatureFlag::SingleSenderAuthenticator => "SingleSenderAuthenticator",
            FeatureFlag::SponsoredAutomaticAccountCreation => "SponsoredAutomaticAccountCreation",
            FeatureFlag::FeePayerAccountOptional => "FeePayerAccountOptional",
            FeatureFlag::AggregatorV2DelayedFields => "AggregatorV2DelayedFields",
            FeatureFlag::ConcurrentTokenV2 => "ConcurrentTokenV2",
            FeatureFlag::LimitMaxIdentifierLength => "LimitMaxIdentifierLength",
            FeatureFlag::OperatorBeneficiaryChange => "OperatorBeneficiaryChange",
            FeatureFlag::VMBinaryFormatV7 => "VMBinaryFormatV7",
            FeatureFlag::ResourceGroupsSplitInVmChangeSet => "ResourceGroupsSplitInVmChangeSet",
            FeatureFlag::CommissionChangeDelegationPool => "CommissionChangeDelegationPool",
            FeatureFlag::Bn254Structures => "Bn254Structures",
            FeatureFlag::WebAuthnSignature => "WebAuthnSignature",
            FeatureFlag::ReconfigureWithDkg => "ReconfigureWithDkg",
            FeatureFlag::KeylessAccounts => "KeylessAccounts",
            FeatureFlag::KeylessButZklessAccounts => "KeylessButZklessAccounts",
            FeatureFlag::RemoveDetailedError => "RemoveDetailedError",
            FeatureFlag::JwkConsensus => "JwkConsensus",
            FeatureFlag::ConcurrentFungibleAssets => "ConcurrentFungibleAssets",
            FeatureFlag::RefundableBytes => "RefundableBytes",
            FeatureFlag::ObjectCodeDeployment => "ObjectCodeDeployment",
            FeatureFlag::MaxObjectNestingCheck => "MaxObjectNestingCheck",
            FeatureFlag::KeylessAccountsWithPasskeys => "KeylessAccountsWithPasskeys",
            FeatureFlag::MultisigV2Enhancement => "MultisigV2Enhancement",
            FeatureFlag::DelegationPoolAllowlisting => "DelegationPoolAllowlisting",
            FeatureFlag::ModuleEventMigration => "ModuleEventMigration",
            FeatureFlag::RejectUnstableBytecode => "RejectUnstableBytecode",
            FeatureFlag::TransactionContextExtension => "TransactionContextExtension",
            FeatureFlag::CoinToFungibleAssetMigration => "CoinToFungibleAssetMigration",
            FeatureFlag::PrimaryAPTFungibleStoreAtUserAddress => "PrimaryAPTFungibleStoreAtUserAddress",
            FeatureFlag::ObjectNativeDerivedAddress => "ObjectNativeDerivedAddress",
            FeatureFlag::DispatchableFungibleAsset => "DispatchableFungibleAsset",
            FeatureFlag::NewAccountsDefaultToFaAptStore => "NewAccountsDefaultToFaAptStore",
            FeatureFlag::OperationsDefaultToFaAptStore => "OperationsDefaultToFaAptStore",
            FeatureFlag::AggregatorV2IsAtLeastApi => "AggregatorV2IsAtLeastApi",
            FeatureFlag::ConcurrentFungibleBalance => "ConcurrentFungibleBalance",
            FeatureFlag::DefaultToConcurrentFungibleBalance => "DefaultToConcurrentFungibleBalance",
            FeatureFlag::LimitVMTypeSize => "LimitVMTypeSize",
            FeatureFlag::AbortIfMultisigPayloadMismatch => "AbortIfMultisigPayloadMismatch",
            FeatureFlag::DisallowUserNative => "DisallowUserNative",
            FeatureFlag::AllowSerializedScriptArgs => "AllowSerializedScriptArgs",
            FeatureFlag::UseCompatibilityCheckerV2 => "UseCompatibilityCheckerV2",
            FeatureFlag::EnableEnumTypes => "EnableEnumTypes",
            FeatureFlag::EnableResourceAccessControl => "EnableResourceAccessControl",
            FeatureFlag::RejectUnstableBytecodeForScript => "RejectUnstableBytecodeForScript",
            FeatureFlag::FederatedKeyless => "FederatedKeyless",
            FeatureFlag::TransactionSimulationEnhancement => "TransactionSimulationEnhancement",
            FeatureFlag::CollectionOwner => "CollectionOwner",
            FeatureFlag::NativeMemoryOperations => "NativeMemoryOperations",
            FeatureFlag::EnableLoaderV2 => "EnableLoaderV2",
            FeatureFlag::DisallowInitModuleToPublishModules => "DisallowInitModuleToPublishModules",
            FeatureFlag::EnableCallTreeAndInstructionVMCache => "EnableCallTreeAndInstructionVMCache",
            FeatureFlag::PermissionedSigner => "PermissionedSigner",
            FeatureFlag::AccountAbstraction => "AccountAbstraction",
            FeatureFlag::VMBinaryFormatV8 => "VMBinaryFormatV8",
            FeatureFlag::BulletproofsBatchNatives => "BulletproofsBatchNatives",
            FeatureFlag::DerivableAccountAbstraction => "DerivableAccountAbstraction",
            FeatureFlag::EnableFunctionValues => "EnableFunctionValues",
            FeatureFlag::NewAccountsDefaultToFaStore => "NewAccountsDefaultToFaStore",
            FeatureFlag::DefaultAccountResource => "DefaultAccountResource",
            FeatureFlag::JwkConsensusPerKeyMode => "JwkConsensusPerKeyMode",
            FeatureFlag::TransactionPayloadV2 => "TransactionPayloadV2",
            FeatureFlag::OrderlessTransactions => "OrderlessTransactions",
            FeatureFlag::EnableLazyLoading => "EnableLazyLoading",
            FeatureFlag::CalculateTransactionFeeForDistribution => "CalculateTransactionFeeForDistribution",
            FeatureFlag::DistributeTransactionFee => "DistributeTransactionFee",
            FeatureFlag::MonotonicallyIncreasingCounter => "MonotonicallyIncreasingCounter",
            FeatureFlag::EnableCaptureOption => "EnableCaptureOption",
        }
    }

    /// Position of the flag in the list of all flags.
    pub fn index(&self) -> (i: usize)
        ensures
            i == self.position(),
    {
        match self {
            FeatureFlag::CodeDependencyCheck => 0,
            FeatureFlag::CollectAndDistributeGasFees => 1,
            FeatureFlag::TreatFriendAsPrivate => 2,
            FeatureFlag::Sha512AndRipeMd160Natives => 3,
            FeatureFlag::LumioStdChainIdNatives => 4,
            FeatureFlag::VMBinaryFormatV6 => 5,
            FeatureFlag::MultiEd25519PkValidateV2Natives => 6,
            FeatureFlag::Blake2b256Native => 7,
            FeatureFlag::ResourceGroups => 8,
            FeatureFlag::MultisigAccounts => 9,
            FeatureFlag::DelegationPools => 10,
            FeatureFlag::CryptographyAlgebraNatives => 11,
            FeatureFlag::Bls12381Structures => 12,
            FeatureFlag::Ed25519PubkeyValidateReturnFalseWrongLength => 13,
            FeatureFlag::StructConstructors => 14,
            FeatureFlag::PeriodicalRewardRateReduction => 15,
            FeatureFlag::PartialGovernanceVoting => 16,
            FeatureFlag::SignatureCheckerV2 => 17,
            FeatureFlag::StorageSlotMetadata => 18,
            FeatureFlag::ChargeInvariantViolation => 19,
            FeatureFlag::DelegationPoolPartialGovernanceVoting => 20,
            FeatureFlag::GasPayerEnabled => 21,
            FeatureFlag::LumioUniqueIdentifiers => 22,
            FeatureFlag::BulletproofsNatives => 23,
            FeatureFlag::SignerNativeFormatFix => 24,
            FeatureFlag::ModuleEvent => 25,
            FeatureFlag::EmitFeeStatement => 26,
            FeatureFlag::StorageDeletionRefund => 27,
            FeatureFlag::AggregatorV2Api => 28,
            FeatureFlag::SignatureCheckerV2ScriptFix => 29,
            FeatureFlag::SaferResourceGroups => 30,
            FeatureFlag::SaferMetadata => 31,
            FeatureFlag::SingleSenderAuthenticator => 32,
            FeatureFlag::SponsoredAutomaticAccountCreation => 33,
            FeatureFlag::FeePayerAccountOptional => 34,
            FeatureFlag::AggregatorV2DelayedFields => 35,
            FeatureFlag::ConcurrentTokenV2 => 36,
            FeatureFlag::LimitMaxIdentifierLength => 37,
            FeatureFlag::OperatorBeneficiaryChange => 38,
            FeatureFlag::VMBinaryFormatV7 => 39,
            FeatureFlag::ResourceGroupsSplitInVmChangeSet => 40,
            FeatureFlag::CommissionChangeDelegationPool => 41,
            FeatureFlag::Bn254Structures => 42,
            FeatureFlag::WebAuthnSignature => 43,
            FeatureFlag::ReconfigureWithDkg => 44,
            FeatureFlag::KeylessAccounts => 45,
            FeatureFlag::KeylessButZklessAccounts => 46,
            FeatureFlag::RemoveDetailedError => 47,
            FeatureFlag::JwkConsensus => 48,
            FeatureFlag::ConcurrentFungibleAssets => 49,
            FeatureFlag::RefundableBytes => 50,
            FeatureFlag::ObjectCodeDeployment => 51,
            FeatureFlag::MaxObjectNestingCheck => 52,
            FeatureFlag::KeylessAccountsWithPasskeys => 53,
            FeatureFlag::MultisigV2Enhancement => 54,
            FeatureFlag::DelegationPoolAllowlisting => 55,
            FeatureFlag::ModuleEventMigration => 56,
            FeatureFlag::RejectUnstableBytecode => 57,
            FeatureFlag::TransactionContextExtension => 58,
            FeatureFlag::CoinToFungibleAssetMigration => 59,
            FeatureFlag::PrimaryAPTFungibleStoreAtUserAddress => 60,
            FeatureFlag::ObjectNativeDerivedAddress => 61,
            FeatureFlag::DispatchableFungibleAsset => 62,
            FeatureFlag::NewAccountsDefaultToFaAptStore => 63,
            FeatureFlag::OperationsDefaultToFaAptStore => 64,
            FeatureFlag::AggregatorV2IsAtLeastApi => 65,
            FeatureFlag::ConcurrentFungibleBalance => 66,
            FeatureFlag::DefaultToConcurrentFungibleBalance => 67,
            FeatureFlag::LimitVMTypeSize => 68,
            FeatureFlag::AbortIfMultisigPayloadMismatch => 69,
            FeatureFlag::DisallowUserNative => 70,
            FeatureFlag::AllowSerializedScriptArgs => 71,
            FeatureFlag::UseCompatibilityCheckerV2 => 72,
            FeatureFlag::EnableEnumTypes => 73,
            FeatureFlag::EnableResourceAccessControl => 74,
            FeatureFlag::RejectUnstableBytecodeForScript => 75,
            FeatureFlag::FederatedKeyless => 76,
            FeatureFlag::TransactionSimulationEnhancement => 77,
            FeatureFlag::CollectionOwner => 78,
            FeatureFlag::NativeMemoryOperations => 79,
            FeatureFlag::EnableLoaderV2 => 80,
            FeatureFlag::DisallowInitModuleToPublishModules => 81,
            FeatureFlag::EnableCallTreeAndInstructionVMCache => 82,
            FeatureFlag::PermissionedSigner => 83,
            FeatureFlag::AccountAbstraction => 84,
            FeatureFlag::VMBinaryFormatV8 => 85,
            FeatureFlag::BulletproofsBatchNatives => 86,
            FeatureFlag::DerivableAccountAbstraction => 87,
            FeatureFlag::EnableFunctionValues => 88,
            FeatureFlag::NewAccountsDefaultToFaStore => 89,
            FeatureFlag::DefaultAccountResource => 90,
            FeatureFlag::JwkConsensusPerKeyMode => 91,
            FeatureFlag::TransactionPayloadV2 => 92,
            FeatureFlag::OrderlessTransactions => 93,
            FeatureFlag::EnableLazyLoading => 94,
            FeatureFlag::CalculateTransactionFeeForDistribution => 95,
            FeatureFlag::DistributeTransactionFee => 96,
            FeatureFlag::MonotonicallyIncreasingCounter => 97,
            FeatureFlag::EnableCaptureOption => 98,
        }
    }

    /// The flag at a position of the list of all flags.
    pub fn at(position: usize) -> (f: FeatureFlag)
        requires
            position < FEATURE_FLAG_COUNT,
        ensures
            f.position() == position,
    {
        if position == 0 {
            FeatureFlag::CodeDependencyCheck
        } else if position == 1 {
            FeatureFlag::CollectAndDistributeGasFees
        } else if position == 2 {
            FeatureFlag::TreatFriendAsPrivate
        } else if position == 3 {
            FeatureFlag::Sha512AndRipeMd160Natives
        } else if position == 4 {
            FeatureFlag::LumioStdChainIdNatives
        } else if position == 5 {
            FeatureFlag::VMBinaryFormatV6
        } else if position == 6 {
            FeatureFlag::MultiEd25519PkValidateV2Natives
        } else if position == 7 {
            FeatureFlag::Blake2b256Native
        } else if position == 8 {
            FeatureFlag::ResourceGroups
        } else if position == 9 {
            FeatureFlag::MultisigAccounts
        } else if position == 10 {
            FeatureFlag::DelegationPools
        } else if position == 11 {
            FeatureFlag::CryptographyAlgebraNatives
        } else if position == 12 {
            FeatureFlag::Bls12381Structures
        } else if position == 13 {
            FeatureFlag::Ed25519PubkeyValidateReturnFalseWrongLength
        } else if position == 14 {
            FeatureFlag::StructConstructors
        } else if position == 15 {
            FeatureFlag::PeriodicalRewardRateReduction
        } else if position == 16 {
            FeatureFlag::PartialGovernanceVoting
        } else if position == 17 {
            FeatureFlag::SignatureCheckerV2
        } else if position == 18 {
            FeatureFlag::StorageSlotMetadata
        } else if position == 19 {
            FeatureFlag::ChargeInvariantViolation
        } else if position == 20 {
            FeatureFlag::DelegationPoolPartialGovernanceVoting
        } else if position == 21 {
            FeatureFlag::GasPayerEnabled
        } else if position == 22 {
            FeatureFlag::LumioUniqueIdentifiers
        } else if position == 23 {
            FeatureFlag::BulletproofsNatives
        } else if position == 24 {
            FeatureFlag::SignerNativeFormatFix
        } else if position == 25 {
            FeatureFlag::ModuleEvent
        } else if position == 26 {
            FeatureFlag::EmitFeeStatement
        } else if position == 27 {
            FeatureFlag::StorageDeletionRefund
        } else if position == 28 {
            FeatureFlag::AggregatorV2Api
        } else if position == 29 {
            FeatureFlag::SignatureCheckerV2ScriptFix
        } else if position == 30 {
            FeatureFlag::SaferResourceGroups
        } else if position == 31 {
            FeatureFlag::SaferMetadata
        } else if position == 32 {
            FeatureFlag::SingleSenderAuthenticator
        } else if position == 33 {
            FeatureFlag::SponsoredAutomaticAccountCreation
        } else if position == 34 {
            FeatureFlag::FeePayerAccountOptional
        } else if position == 35 {
            FeatureFlag::AggregatorV2DelayedFields
        } else if position == 36 {
            FeatureFlag::ConcurrentTokenV2
        } else if position == 37 {
            FeatureFlag::LimitMaxIdentifierLength
        } else if position == 38 {
            FeatureFlag::OperatorBeneficiaryChange
        } else if position == 39 {
            FeatureFlag::VMBinaryFormatV7
        } else if position == 40 {
            FeatureFlag::ResourceGroupsSplitInVmChangeSet
        } else if position == 41 {
            FeatureFlag::CommissionChangeDelegationPool
        } else if position == 42 {
            FeatureFlag::Bn254Structures
        } else if position == 43 {
            FeatureFlag::WebAuthnSignature
        } else if position == 44 {
            FeatureFlag::ReconfigureWithDkg
        } else if position == 45 {
            FeatureFlag::KeylessAccounts
        } else if position == 46 {
            FeatureFlag::KeylessButZklessAccounts
        } else if position == 47 {
            FeatureFlag::RemoveDetailedError
        } else if position == 48 {
            FeatureFlag::JwkConsensus
        } else if position == 49 {
            FeatureFlag::ConcurrentFungibleAssets
        } else if position == 50 {
            FeatureFlag::RefundableBytes
        } else if position == 51 {
            FeatureFlag::ObjectCodeDeployment
        } else if position == 52 {
            FeatureFlag::MaxObjectNestingCheck
        } else if position == 53 {
            FeatureFlag::KeylessAccountsWithPasskeys
        } else if position == 54 {
            FeatureFlag::MultisigV2Enhancement
        } else if position == 55 {
            FeatureFlag::DelegationPoolAllowlisting
        } else if position == 56 {
            FeatureFlag::ModuleEventMigration
        } else if position == 57 {
            FeatureFlag::RejectUnstableBytecode
        } else if position == 58 {
            FeatureFlag::TransactionContextExtension
        } else if position == 59 {
            FeatureFlag::CoinToFungibleAssetMigration
        } else if position == 60 {
            FeatureFlag::PrimaryAPTFungibleStoreAtUserAddress
        } else if position == 61 {
            FeatureFlag::ObjectNativeDerivedAddress
        } else if position == 62 {
            FeatureFlag::DispatchableFungibleAsset
        } else if position == 63 {
            FeatureFlag::NewAccountsDefaultToFaAptStore
        } else if position == 64 {
            FeatureFlag::OperationsDefaultToFaAptStore
        } else if position == 65 {
            FeatureFlag::AggregatorV2IsAtLeastApi
        } else if position == 66 {
            FeatureFlag::ConcurrentFungibleBalance
        } else if position == 67 {
            FeatureFlag::DefaultToConcurrentFungibleBalance
        } else if position == 68 {
            FeatureFlag::LimitVMTypeSize
        } else if position == 69 {
            FeatureFlag::AbortIfMultisigPayloadMismatch
        } else if position == 70 {
            FeatureFlag::DisallowUserNative
        } else if position == 71 {
            FeatureFlag::AllowSerializedScriptArgs
        } else if position == 72 {
            FeatureFlag::UseCompatibilityCheckerV2
        } else if position == 73 {
            FeatureFlag::EnableEnumTypes
        } else if position == 74 {
            FeatureFlag::EnableResourceAccessControl
        } else if position == 75 {
            FeatureFlag::RejectUnstableBytecodeForScript
        } else if position == 76 {
            FeatureFlag::FederatedKeyless
        } else if position == 77 {
            FeatureFlag::TransactionSimulationEnhancement
        } else if position == 78 {
            FeatureFlag::CollectionOwner
        } else if position == 79 {
            FeatureFlag::NativeMemoryOperations
        } else if position == 80 {
            FeatureFlag::EnableLoaderV2
        } else if position == 81 {
            FeatureFlag::DisallowInitModuleToPublishModules
        } else if position == 82 {
            FeatureFlag::EnableCallTreeAndInstructionVMCache
        } else if position == 83 {
            FeatureFlag::PermissionedSigner
        } else if position == 84 {
            FeatureFlag::AccountAbstraction
        } else if position == 85 {
            FeatureFlag::VMBinaryFormatV8
        } else if position == 86 {
            FeatureFlag::BulletproofsBatchNatives
        } else if position == 87 {
            FeatureFlag::DerivableAccountAbstraction
        } else if position == 88 {
            FeatureFlag::EnableFunctionValues
        } else if position == 89 {
            FeatureFlag::NewAccountsDefaultToFaStore
        } else if position == 90 {
            FeatureFlag::DefaultAccountResource
        } else if position == 91 {
            FeatureFlag::JwkConsensusPerKeyMode
        } else if position == 92 {
            FeatureFlag::TransactionPayloadV2
        } else if position == 93 {
            FeatureFlag::OrderlessTransactions
        } else if position == 94 {
            FeatureFlag::EnableLazyLoading
        } else if position == 95 {
            FeatureFlag::CalculateTransactionFeeForDistribution
        } else if position == 96 {
            FeatureFlag::DistributeTransactionFee
        } else if position == 97 {
            FeatureFlag::MonotonicallyIncreasingCounter
        } else {
            FeatureFlag::EnableCaptureOption
        }
    }

    /// Every flag, each once, in the order in which they are declared.
    pub fn all() -> (flags: Vec<FeatureFlag>)
        ensures
            flags@.len() == FEATURE_FLAG_COUNT,
            forall|f: FeatureFlag| #[trigger] flags@[f.position()] == f,
            forall|i: int| 0 <= i < flags@.len() ==> (#[trigger] flags@[i]).position() == i,
    {
        let mut flags: Vec<FeatureFlag> = Vec::new();
        let mut i: usize = 0;
        while i < FEATURE_FLAG_COUNT
            invariant
                i <= FEATURE_FLAG_COUNT,
                flags@.len() == i,
                forall|j: int| 0 <= j < i ==> (#[trigger] flags@[j]).position() == j,
            decreases FEATURE_FLAG_COUNT - i,
        {
            flags.push(FeatureFlag::at(i));
            i = i + 1;
        }
        proof {
            assert forall|f: FeatureFlag| #[trigger] flags@[f.position()] == f by {
                lemma_position_in_range(f);
                lemma_position_is_one_to_one(flags@[f.position()], f);
            }
        }
        flags
    }
}

impl LumioFeatureFlag {
    /// The flag of a release file that stands for this flag.
    pub open spec fn in_release(self) -> FeatureFlag {
        match self {
            LumioFeatureFlag::CODE_DEPENDENCY_CHECK => FeatureFlag::CodeDependencyCheck,
            LumioFeatureFlag::_DEPRECATED_COLLECT_AND_DISTRIBUTE_GAS_FEES => FeatureFlag::CollectAndDistributeGasFees,
            LumioFeatureFlag::TREAT_FRIEND_AS_PRIVATE => FeatureFlag::TreatFriendAsPrivate,
            LumioFeatureFlag::SHA_512_AND_RIPEMD_160_NATIVES => FeatureFlag::Sha512AndRipeMd160Natives,
            LumioFeatureFlag::LUMIO_STD_CHAIN_ID_NATIVES => FeatureFlag::LumioStdChainIdNatives,
            LumioFeatureFlag::VM_BINARY_FORMAT_V6 => FeatureFlag::VMBinaryFormatV6,
            LumioFeatureFlag::MULTI_ED25519_PK_VALIDATE_V2_NATIVES => FeatureFlag::MultiEd25519PkValidateV2Natives,
            LumioFeatureFlag::BLAKE2B_256_NATIVE => FeatureFlag::Blake2b256Native,
            LumioFeatureFlag::RESOURCE_GROUPS => FeatureFlag::ResourceGroups,
            LumioFeatureFlag::MULTISIG_ACCOUNTS => FeatureFlag::MultisigAccounts,
            LumioFeatureFlag::DELEGATION_POOLS => FeatureFlag::DelegationPools,
            LumioFeatureFlag::CRYPTOGRAPHY_ALGEBRA_NATIVES => FeatureFlag::CryptographyAlgebraNatives,
            LumioFeatureFlag::BLS12_381_STRUCTURES => FeatureFlag::Bls12381Structures,
            LumioFeatureFlag::ED25519_PUBKEY_VALIDATE_RETURN_FALSE_WRONG_LENGTH => FeatureFlag::Ed25519PubkeyValidateReturnFalseWrongLength,
            LumioFeatureFlag::STRUCT_CONSTRUCTORS => FeatureFlag::StructConstructors,
            LumioFeatureFlag::PERIODICAL_REWARD_RATE_DECREASE => FeatureFlag::PeriodicalRewardRateReduction,
            LumioFeatureFlag::PARTIAL_GOVERNANCE_VOTING => FeatureFlag::PartialGovernanceVoting,
            LumioFeatureFlag::SIGNATURE_CHECKER_V2 => FeatureFlag::SignatureCheckerV2,
            LumioFeatureFlag::STORAGE_SLOT_METADATA => FeatureFlag::StorageSlotMetadata,
            LumioFeatureFlag::CHARGE_INVARIANT_VIOLATION => FeatureFlag::ChargeInvariantViolation,
            LumioFeatureFlag::DELEGATION_POOL_PARTIAL_GOVERNANCE_VOTING => FeatureFlag::DelegationPoolPartialGovernanceVoting,
            LumioFeatureFlag::GAS_PAYER_ENABLED => FeatureFlag::GasPayerEnabled,
            LumioFeatureFlag::LUMIO_UNIQUE_IDENTIFIERS => FeatureFlag::LumioUniqueIdentifiers,
            LumioFeatureFlag::BULLETPROOFS_NATIVES => FeatureFlag::BulletproofsNatives,
            LumioFeatureFlag::SIGNER_NATIVE_FORMAT_FIX => FeatureFlag::SignerNativeFormatFix,
            LumioFeatureFlag::MODULE_EVENT => FeatureFlag::ModuleEvent,
            LumioFeatureFlag::EMIT_FEE_STATEMENT => FeatureFlag::EmitFeeStatement,
            LumioFeatureFlag::STORAGE_DELETION_REFUND => FeatureFlag::StorageDeletionRefund,
            LumioFeatureFlag::AGGREGATOR_V2_API => FeatureFlag::AggregatorV2Api,
            LumioFeatureFlag::SIGNATURE_CHECKER_V2_SCRIPT_FIX => FeatureFlag::SignatureCheckerV2ScriptFix,
            LumioFeatureFlag::SAFER_RESOURCE_GROUPS => FeatureFlag::SaferResourceGroups,
            LumioFeatureFlag::SAFER_METADATA => FeatureFlag::SaferMetadata,
            LumioFeatureFlag::SINGLE_SENDER_AUTHENTICATOR => FeatureFlag::SingleSenderAuthenticator,
            LumioFeatureFlag::SPONSORED_AUTOMATIC_ACCOUNT_V1_CREATION => FeatureFlag::SponsoredAutomaticAccountCreation,
            LumioFeatureFlag::FEE_PAYER_ACCOUNT_OPTIONAL => FeatureFlag::FeePayerAccountOptional,
            LumioFeatureFlag::AGGREGATOR_V2_DELAYED_FIELDS => FeatureFlag::AggregatorV2DelayedFields,
            LumioFeatureFlag::CONCURRENT_TOKEN_V2 => FeatureFlag::ConcurrentTokenV2,
            LumioFeatureFlag::LIMIT_MAX_IDENTIFIER_LENGTH => FeatureFlag::LimitMaxIdentifierLength,
            LumioFeatureFlag::OPERATOR_BENEFICIARY_CHANGE => FeatureFlag::OperatorBeneficiaryChange,
            LumioFeatureFlag::VM_BINARY_FORMAT_V7 => FeatureFlag::VMBinaryFormatV7,
            LumioFeatureFlag::RESOURCE_GROUPS_SPLIT_IN_VM_CHANGE_SET => FeatureFlag::ResourceGroupsSplitInVmChangeSet,
            LumioFeatureFlag::COMMISSION_CHANGE_DELEGATION_POOL => FeatureFlag::CommissionChangeDelegationPool,
            LumioFeatureFlag::BN254_STRUCTURES => FeatureFlag::Bn254Structures,
            LumioFeatureFlag::WEBAUTHN_SIGNATURE => FeatureFlag::WebAuthnSignature,
            LumioFeatureFlag::_DEPRECATED_RECONFIGURE_WITH_DKG => FeatureFlag::ReconfigureWithDkg,
            LumioFeatureFlag::KEYLESS_ACCOUNTS => FeatureFlag::KeylessAccounts,
            LumioFeatureFlag::KEYLESS_BUT_ZKLESS_ACCOUNTS => FeatureFlag::KeylessButZklessAccounts,
            LumioFeatureFlag::_DEPRECATED_REMOVE_DETAILED_ERROR_FROM_HASH => FeatureFlag::RemoveDetailedError,
            LumioFeatureFlag::JWK_CONSENSUS => FeatureFlag::JwkConsensus,
            LumioFeatureFlag::CONCURRENT_FUNGIBLE_ASSETS => FeatureFlag::ConcurrentFungibleAssets,
            LumioFeatureFlag::REFUNDABLE_BYTES => FeatureFlag::RefundableBytes,
            LumioFeatureFlag::OBJECT_CODE_DEPLOYMENT => FeatureFlag::ObjectCodeDeployment,
            LumioFeatureFlag::MAX_OBJECT_NESTING_CHECK => FeatureFlag::MaxObjectNestingCheck,
            LumioFeatureFlag::KEYLESS_ACCOUNTS_WITH_PASSKEYS => FeatureFlag::KeylessAccountsWithPasskeys,
            LumioFeatureFlag::MULTISIG_V2_ENHANCEMENT => FeatureFlag::MultisigV2Enhancement,
            LumioFeatureFlag::DELEGATION_POOL_ALLOWLISTING => FeatureFlag::DelegationPoolAllowlisting,
            LumioFeatureFlag::MODULE_EVENT_MIGRATION => FeatureFlag::ModuleEventMigration,
            LumioFeatureFlag::_REJECT_UNSTABLE_BYTECODE => FeatureFlag::RejectUnstableBytecode,
            LumioFeatureFlag::TRANSACTION_CONTEXT_EXTENSION => FeatureFlag::TransactionContextExtension,
            LumioFeatureFlag::COIN_TO_FUNGIBLE_ASSET_MIGRATION => FeatureFlag::CoinToFungibleAssetMigration,
            LumioFeatureFlag::PRIMARY_LUM_FUNGIBLE_STORE_AT_USER_ADDRESS => FeatureFlag::PrimaryAPTFungibleStoreAtUserAddress,
            LumioFeatureFlag::OBJECT_NATIVE_DERIVED_ADDRESS => FeatureFlag::ObjectNativeDerivedAddress,
            LumioFeatureFlag::DISPATCHABLE_FUNGIBLE_ASSET => FeatureFlag::DispatchableFungibleAsset,
            LumioFeatureFlag::NEW_ACCOUNTS_DEFAULT_TO_FA_LUM_STORE => FeatureFlag::NewAccountsDefaultToFaAptStore,
            LumioFeatureFlag::OPERATIONS_DEFAULT_TO_FA_LUM_STORE => FeatureFlag::OperationsDefaultToFaAptStore,
            LumioFeatureFlag::AGGREGATOR_V2_IS_AT_LEAST_API => FeatureFlag::AggregatorV2IsAtLeastApi,
            LumioFeatureFlag::CONCURRENT_FUNGIBLE_BALANCE => FeatureFlag::ConcurrentFungibleBalance,
            LumioFeatureFlag::DEFAULT_TO_CONCURRENT_FUNGIBLE_BALANCE => FeatureFlag::DefaultToConcurrentFungibleBalance,
            LumioFeatureFlag::_LIMIT_VM_TYPE_SIZE => FeatureFlag::LimitVMTypeSize,
            LumioFeatureFlag::ABORT_IF_MULTISIG_PAYLOAD_MISMATCH => FeatureFlag::AbortIfMultisigPayloadMismatch,
            LumioFeatureFlag::_DISALLOW_USER_NATIVES => FeatureFlag::DisallowUserNative,
            LumioFeatureFlag::ALLOW_SERIALIZED_SCRIPT_ARGS => FeatureFlag::AllowSerializedScriptArgs,
            LumioFeatureFlag::_USE_COMPATIBILITY_CHECKER_V2 => FeatureFlag::UseCompatibilityCheckerV2,
            LumioFeatureFlag::ENABLE_ENUM_TYPES => FeatureFlag::EnableEnumTypes,
            LumioFeatureFlag::ENABLE_RESOURCE_ACCESS_CONTROL => FeatureFlag::EnableResourceAccessControl,
            LumioFeatureFlag::_REJECT_UNSTABLE_BYTECODE_FOR_SCRIPT => FeatureFlag::RejectUnstableBytecodeForScript,
            LumioFeatureFlag::FEDERATED_KEYLESS => FeatureFlag::FederatedKeyless,
            LumioFeatureFlag::TRANSACTION_SIMULATION_ENHANCEMENT => FeatureFlag::TransactionSimulationEnhancement,
            LumioFeatureFlag::COLLECTION_OWNER => FeatureFlag::CollectionOwner,
            LumioFeatureFlag::NATIVE_MEMORY_OPERATIONS => FeatureFlag::NativeMemoryOperations,
            LumioFeatureFlag::_ENABLE_LOADER_V2 => FeatureFlag::EnableLoaderV2,
            LumioFeatureFlag::_DISALLOW_INIT_MODULE_TO_PUBLISH_MODULES => FeatureFlag::DisallowInitModuleToPublishModules,
            LumioFeatureFlag::ENABLE_CALL_TREE_AND_INSTRUCTION_VM_CACHE => FeatureFlag::EnableCallTreeAndInstructionVMCache,
            LumioFeatureFlag::PERMISSIONED_SIGNER => FeatureFlag::PermissionedSigner,
            LumioFeatureFlag::ACCOUNT_ABSTRACTION => FeatureFlag::AccountAbstraction,
            LumioFeatureFlag::VM_BINARY_FORMAT_V8 => FeatureFlag::VMBinaryFormatV8,
            LumioFeatureFlag::BULLETPROOFS_BATCH_NATIVES => FeatureFlag::BulletproofsBatchNatives,
            LumioFeatureFlag::DERIVABLE_ACCOUNT_ABSTRACTION => FeatureFlag::DerivableAccountAbstraction,
            LumioFeatureFlag::ENABLE_FUNCTION_VALUES => FeatureFlag::EnableFunctionValues,
            LumioFeatureFlag::NEW_ACCOUNTS_DEFAULT_TO_FA_STORE => FeatureFlag::NewAccountsDefaultToFaStore,
            LumioFeatureFlag::DEFAULT_ACCOUNT_RESOURCE => FeatureFlag::DefaultAccountResource,
            LumioFeatureFlag::JWK_CONSENSUS_PER_KEY_MODE => FeatureFlag::JwkConsensusPerKeyMode,
            LumioFeatureFlag::TRANSACTION_PAYLOAD_V2 => FeatureFlag::TransactionPayloadV2,
            LumioFeatureFlag::ORDERLESS_TRANSACTIONS => FeatureFlag::OrderlessTransactions,
            LumioFeatureFlag::ENABLE_LAZY_LOADING => FeatureFlag::EnableLazyLoading,
            LumioFeatureFlag::CALCULATE_TRANSACTION_FEE_FOR_DISTRIBUTION => FeatureFlag::CalculateTransactionFeeForDistribution,
            LumioFeatureFlag::DISTRIBUTE_TRANSACTION_FEE => FeatureFlag::DistributeTransactionFee,
            LumioFeatureFlag::MONOTONICALLY_INCREASING_COUNTER => FeatureFlag::MonotonicallyIncreasingCounter,
            LumioFeatureFlag::ENABLE_CAPTURE_OPTION => FeatureFlag::EnableCaptureOption,
        }
    }
}

impl From<FeatureFlag> for LumioFeatureFlag {
    fn from(f: FeatureFlag) -> (r: Self) {
        match f {
            FeatureFlag::CodeDependencyCheck => LumioFeatureFlag::CODE_DEPENDENCY_CHECK,
            FeatureFlag::CollectAndDistributeGasFees => LumioFeatureFlag::_DEPRECATED_COLLECT_AND_DISTRIBUTE_GAS_FEES,
            FeatureFlag::TreatFriendAsPrivate => LumioFeatureFlag::TREAT_FRIEND_AS_PRIVATE,
            FeatureFlag::Sha512AndRipeMd160Natives => LumioFeatureFlag::SHA_512_AND_RIPEMD_160_NATIVES,
            FeatureFlag::LumioStdChainIdNatives => LumioFeatureFlag::LUMIO_STD_CHAIN_ID_NATIVES,
            FeatureFlag::VMBinaryFormatV6 => LumioFeatureFlag::VM_BINARY_FORMAT_V6,
            FeatureFlag::MultiEd25519PkValidateV2Natives => LumioFeatureFlag::MULTI_ED25519_PK_VALIDATE_V2_NATIVES,
            FeatureFlag::Blake2b256Native => LumioFeatureFlag::BLAKE2B_256_NATIVE,
            FeatureFlag::ResourceGroups => LumioFeatureFlag::RESOURCE_GROUPS,
            FeatureFlag::MultisigAccounts => LumioFeatureFlag::MULTISIG_ACCOUNTS,
            FeatureFlag::DelegationPools => LumioFeatureFlag::DELEGATION_POOLS,
            FeatureFlag::CryptographyAlgebraNatives => LumioFeatureFlag::CRYPTOGRAPHY_ALGEBRA_NATIVES,
            FeatureFlag::Bls12381Structures => LumioFeatureFlag::BLS12_381_STRUCTURES,
            FeatureFlag::Ed25519PubkeyValidateReturnFalseWrongLength => LumioFeatureFlag::ED25519_PUBKEY_VALIDATE_RETURN_FALSE_WRONG_LENGTH,
            FeatureFlag::StructConstructors => LumioFeatureFlag::STRUCT_CONSTRUCTORS,
            FeatureFlag::PeriodicalRewardRateReduction => LumioFeatureFlag::PERIODICAL_REWARD_RATE_DECREASE,
            FeatureFlag::PartialGovernanceVoting => LumioFeatureFlag::PARTIAL_GOVERNANCE_VOTING,
            FeatureFlag::SignatureCheckerV2 => LumioFeatureFlag::SIGNATURE_CHECKER_V2,
            FeatureFlag::StorageSlotMetadata => LumioFeatureFlag::STORAGE_SLOT_METADATA,
            FeatureFlag::ChargeInvariantViolation => LumioFeatureFlag::CHARGE_INVARIANT_VIOLATION,
            FeatureFlag::DelegationPoolPartialGovernanceVoting => LumioFeatureFlag::DELEGATION_POOL_PARTIAL_GOVERNANCE_VOTING,
            FeatureFlag::GasPayerEnabled => LumioFeatureFlag::GAS_PAYER_ENABLED,
            FeatureFlag::LumioUniqueIdentifiers => LumioFeatureFlag::LUMIO_UNIQUE_IDENTIFIERS,
            FeatureFlag::BulletproofsNatives => LumioFeatureFlag::BULLETPROOFS_NATIVES,
            FeatureFlag::SignerNativeFormatFix => LumioFeatureFlag::SIGNER_NATIVE_FORMAT_FIX,
            FeatureFlag::ModuleEvent => LumioFeatureFlag::MODULE_EVENT,
            FeatureFlag::EmitFeeStatement => LumioFeatureFlag::EMIT_FEE_STATEMENT,
            FeatureFlag::StorageDeletionRefund => LumioFeatureFlag::STORAGE_DELETION_REFUND,
            FeatureFlag::AggregatorV2Api => LumioFeatureFlag::AGGREGATOR_V2_API,
            FeatureFlag::SignatureCheckerV2ScriptFix => LumioFeatureFlag::SIGNATURE_CHECKER_V2_SCRIPT_FIX,
            FeatureFlag::SaferResourceGroups => LumioFeatureFlag::SAFER_RESOURCE_GROUPS,
            FeatureFlag::SaferMetadata => LumioFeatureFlag::SAFER_METADATA,
            FeatureFlag::SingleSenderAuthenticator => LumioFeatureFlag::SINGLE_SENDER_AUTHENTICATOR,
            FeatureFlag::SponsoredAutomaticAccountCreation => LumioFeatureFlag::SPONSORED_AUTOMATIC_ACCOUNT_V1_CREATION,
            FeatureFlag::FeePayerAccountOptional => LumioFeatureFlag::FEE_PAYER_ACCOUNT_OPTIONAL,
            FeatureFlag::AggregatorV2DelayedFields => LumioFeatureFlag::AGGREGATOR_V2_DELAYED_FIELDS,
            FeatureFlag::ConcurrentTokenV2 => LumioFeatureFlag::CONCURRENT_TOKEN_V2,
            FeatureFlag::LimitMaxIdentifierLength => LumioFeatureFlag::LIMIT_MAX_IDENTIFIER_LENGTH,
            FeatureFlag::OperatorBeneficiaryChange => LumioFeatureFlag::OPERATOR_BENEFICIARY_CHANGE,
            FeatureFlag::VMBinaryFormatV7 => LumioFeatureFlag::VM_BINARY_FORMAT_V7,
            FeatureFlag::ResourceGroupsSplitInVmChangeSet => LumioFeatureFlag::RESOURCE_GROUPS_SPLIT_IN_VM_CHANGE_SET,
            FeatureFlag::CommissionChangeDelegationPool => LumioFeatureFlag::COMMISSION_CHANGE_DELEGATION_POOL,
            FeatureFlag::Bn254Structures => LumioFeatureFlag::BN254_STRUCTURES,
            FeatureFlag::WebAuthnSignature => LumioFeatureFlag::WEBAUTHN_SIGNATURE,
            FeatureFlag::ReconfigureWithDkg => LumioFeatureFlag::_DEPRECATED_RECONFIGURE_WITH_DKG,
            FeatureFlag::KeylessAccounts => LumioFeatureFlag::KEYLESS_ACCOUNTS,
            FeatureFlag::KeylessButZklessAccounts => LumioFeatureFlag::KEYLESS_BUT_ZKLESS_ACCOUNTS,
            FeatureFlag::RemoveDetailedError => LumioFeatureFlag::_DEPRECATED_REMOVE_DETAILED_ERROR_FROM_HASH,
            FeatureFlag::JwkConsensus => LumioFeatureFlag::JWK_CONSENSUS,
            FeatureFlag::ConcurrentFungibleAssets => LumioFeatureFlag::CONCURRENT_FUNGIBLE_ASSETS,
            FeatureFlag::RefundableBytes => LumioFeatureFlag::REFUNDABLE_BYTES,
            FeatureFlag::ObjectCodeDeployment => LumioFeatureFlag::OBJECT_CODE_DEPLOYMENT,
            FeatureFlag::MaxObjectNestingCheck => LumioFeatureFlag::MAX_OBJECT_NESTING_CHECK,
            FeatureFlag::KeylessAccountsWithPasskeys => LumioFeatureFlag::KEYLESS_ACCOUNTS_WITH_PASSKEYS,
            FeatureFlag::MultisigV2Enhancement => LumioFeatureFlag::MULTISIG_V2_ENHANCEMENT,
            FeatureFlag::DelegationPoolAllowlisting => LumioFeatureFlag::DELEGATION_POOL_ALLOWLISTING,
            FeatureFlag::ModuleEventMigration => LumioFeatureFlag::MODULE_EVENT_MIGRATION,
            FeatureFlag::RejectUnstableBytecode => LumioFeatureFlag::_REJECT_UNSTABLE_BYTECODE,
            FeatureFlag::TransactionContextExtension => LumioFeatureFlag::TRANSACTION_CONTEXT_EXTENSION,
            FeatureFlag::CoinToFungibleAssetMigration => LumioFeatureFlag::COIN_TO_FUNGIBLE_ASSET_MIGRATION,
            FeatureFlag::PrimaryAPTFungibleStoreAtUserAddress => LumioFeatureFlag::PRIMARY_LUM_FUNGIBLE_STORE_AT_USER_ADDRESS,
            FeatureFlag::ObjectNativeDerivedAddress => LumioFeatureFlag::OBJECT_NATIVE_DERIVED_ADDRESS,
            FeatureFlag::DispatchableFungibleAsset => LumioFeatureFlag::DISPATCHABLE_FUNGIBLE_ASSET,
            FeatureFlag::NewAccountsDefaultToFaAptStore => LumioFeatureFlag::NEW_ACCOUNTS_DEFAULT_TO_FA_LUM_STORE,
            FeatureFlag::OperationsDefaultToFaAptStore => LumioFeatureFlag::OPERATIONS_DEFAULT_TO_FA_LUM_STORE,
            FeatureFlag::AggregatorV2IsAtLeastApi => LumioFeatureFlag::AGGREGATOR_V2_IS_AT_LEAST_API,
            FeatureFlag::ConcurrentFungibleBalance => LumioFeatureFlag::CONCURRENT_FUNGIBLE_BALANCE,
            FeatureFlag::DefaultToConcurrentFungibleBalance => LumioFeatureFlag::DEFAULT_TO_CONCURRENT_FUNGIBLE_BALANCE,
            FeatureFlag::LimitVMTypeSize => LumioFeatureFlag::_LIMIT_VM_TYPE_SIZE,
            FeatureFlag::AbortIfMultisigPayloadMismatch => LumioFeatureFlag::ABORT_IF_MULTISIG_PAYLOAD_MISMATCH,
            FeatureFlag::DisallowUserNative => LumioFeatureFlag::_DISALLOW_USER_NATIVES,
            FeatureFlag::AllowSerializedScriptArgs => LumioFeatureFlag::ALLOW_SERIALIZED_SCRIPT_ARGS,
            FeatureFlag::UseCompatibilityCheckerV2 => LumioFeatureFlag::_USE_COMPATIBILITY_CHECKER_V2,
            FeatureFlag::EnableEnumTypes => LumioFeatureFlag::ENABLE_ENUM_TYPES,
            FeatureFlag::EnableResourceAccessControl => LumioFeatureFlag::ENABLE_RESOURCE_ACCESS_CONTROL,
            FeatureFlag::RejectUnstableBytecodeForScript => LumioFeatureFlag::_REJECT_UNSTABLE_BYTECODE_FOR_SCRIPT,
            FeatureFlag::FederatedKeyless => LumioFeatureFlag::FEDERATED_KEYLESS,
            FeatureFlag::TransactionSimulationEnhancement => LumioFeatureFlag::TRANSACTION_SIMULATION_ENHANCEMENT,
            FeatureFlag::CollectionOwner => LumioFeatureFlag::COLLECTION_OWNER,
            FeatureFlag::NativeMemoryOperations => LumioFeatureFlag::NATIVE_MEMORY_OPERATIONS,
            FeatureFlag::EnableLoaderV2 => LumioFeatureFlag::_ENABLE_LOADER_V2,
            FeatureFlag::DisallowInitModuleToPublishModules => LumioFeatureFlag::_DISALLOW_INIT_MODULE_TO_PUBLISH_MODULES,
            FeatureFlag::EnableCallTreeAndInstructionVMCache => LumioFeatureFlag::ENABLE_CALL_TREE_AND_INSTRUCTION_VM_CACHE,
            FeatureFlag::PermissionedSigner => LumioFeatureFlag::PERMISSIONED_SIGNER,
            FeatureFlag::AccountAbstraction => LumioFeatureFlag::ACCOUNT_ABSTRACTION,
            FeatureFlag::VMBinaryFormatV8 => LumioFeatureFlag::VM_BINARY_FORMAT_V8,
            FeatureFlag::BulletproofsBatchNatives => LumioFeatureFlag::BULLETPROOFS_BATCH_NATIVES,
            FeatureFlag::DerivableAccountAbstraction => LumioFeatureFlag::DERIVABLE_ACCOUNT_ABSTRACTION,
            FeatureFlag::EnableFunctionValues => LumioFeatureFlag::ENABLE_FUNCTION_VALUES,
            FeatureFlag::NewAccountsDefaultToFaStore => LumioFeatureFlag::NEW_ACCOUNTS_DEFAULT_TO_FA_STORE,
            FeatureFlag::DefaultAccountResource => LumioFeatureFlag::DEFAULT_ACCOUNT_RESOURCE,
            FeatureFlag::JwkConsensusPerKeyMode => LumioFeatureFlag::JWK_CONSENSUS_PER_KEY_MODE,
            FeatureFlag::TransactionPayloadV2 => LumioFeatureFlag::TRANSACTION_PAYLOAD_V2,
            FeatureFlag::OrderlessTransactions => LumioFeatureFlag::ORDERLESS_TRANSACTIONS,
            FeatureFlag::EnableLazyLoading => LumioFeatureFlag::ENABLE_LAZY_LOADING,
            FeatureFlag::CalculateTransactionFeeForDistribution => LumioFeatureFlag::CALCULATE_TRANSACTION_FEE_FOR_DISTRIBUTION,
            FeatureFlag::DistributeTransactionFee => LumioFeatureFlag::DISTRIBUTE_TRANSACTION_FEE,
            FeatureFlag::MonotonicallyIncreasingCounter => LumioFeatureFlag::MONOTONICALLY_INCREASING_COUNTER,
            FeatureFlag::EnableCaptureOption => LumioFeatureFlag::ENABLE_CAPTURE_OPTION,
        }
    }
}

impl FromSpecImpl<FeatureFlag> for LumioFeatureFlag {
    open spec fn obeys_from_spec() -> bool {
        true
    }

    open spec fn from_spec(f: FeatureFlag) -> Self {
        f.on_chain()
    }
}

// This direction is not needed to write a release; it is there so that the two lists of flags
// are known to correspond one to one.
impl From<LumioFeatureFlag> for FeatureFlag {
    fn from(f: LumioFeatureFlag) -> (r: Self) {
        match f {
            LumioFeatureFlag::CODE_DEPENDENCY_CHECK => FeatureFlag::CodeDependencyCheck,
            LumioFeatureFlag::_DEPRECATED_COLLECT_AND_DISTRIBUTE_GAS_FEES => FeatureFlag::CollectAndDistributeGasFees,
            LumioFeatureFlag::TREAT_FRIEND_AS_PRIVATE => FeatureFlag::TreatFriendAsPrivate,
            LumioFeatureFlag::SHA_512_AND_RIPEMD_160_NATIVES => FeatureFlag::Sha512AndRipeMd160Natives,
            LumioFeatureFlag::LUMIO_STD_CHAIN_ID_NATIVES => FeatureFlag::LumioStdChainIdNatives,
            LumioFeatureFlag::VM_BINARY_FORMAT_V6 => FeatureFlag::VMBinaryFormatV6,
            LumioFeatureFlag::MULTI_ED25519_PK_VALIDATE_V2_NATIVES => FeatureFlag::MultiEd25519PkValidateV2Natives,
            LumioFeatureFlag::BLAKE2B_256_NATIVE => FeatureFlag::Blake2b256Native,
            LumioFeatureFlag::RESOURCE_GROUPS => FeatureFlag::ResourceGroups,
            LumioFeatureFlag::MULTISIG_ACCOUNTS => FeatureFlag::MultisigAccounts,
            LumioFeatureFlag::DELEGATION_POOLS => FeatureFlag::DelegationPools,
            LumioFeatureFlag::CRYPTOGRAPHY_ALGEBRA_NATIVES => FeatureFlag::CryptographyAlgebraNatives,
            LumioFeatureFlag::BLS12_381_STRUCTURES => FeatureFlag::Bls12381Structures,
            LumioFeatureFlag::ED25519_PUBKEY_VALIDATE_RETURN_FALSE_WRONG_LENGTH => FeatureFlag::Ed25519PubkeyValidateReturnFalseWrongLength,
            LumioFeatureFlag::STRUCT_CONSTRUCTORS => FeatureFlag::StructConstructors,
            LumioFeatureFlag::PERIODICAL_REWARD_RATE_DECREASE => FeatureFlag::PeriodicalRewardRateReduction,
            LumioFeatureFlag::PARTIAL_GOVERNANCE_VOTING => FeatureFlag::PartialGovernanceVoting,
            LumioFeatureFlag::SIGNATURE_CHECKER_V2 => FeatureFlag::SignatureCheckerV2,
            LumioFeatureFlag::STORAGE_SLOT_METADATA => FeatureFlag::StorageSlotMetadata,
            LumioFeatureFlag::CHARGE_INVARIANT_VIOLATION => FeatureFlag::ChargeInvariantViolation,
            LumioFeatureFlag::DELEGATION_POOL_PARTIAL_GOVERNANCE_VOTING => FeatureFlag::DelegationPoolPartialGovernanceVoting,
            LumioFeatureFlag::GAS_PAYER_ENABLED => FeatureFlag::GasPayerEnabled,
            LumioFeatureFlag::LUMIO_UNIQUE_IDENTIFIERS => FeatureFlag::LumioUniqueIdentifiers,
            LumioFeatureFlag::BULLETPROOFS_NATIVES => FeatureFlag::BulletproofsNatives,
            LumioFeatureFlag::SIGNER_NATIVE_FORMAT_FIX => FeatureFlag::SignerNativeFormatFix,
            LumioFeatureFlag::MODULE_EVENT => FeatureFlag::ModuleEvent,
            LumioFeatureFlag::EMIT_FEE_STATEMENT => FeatureFlag::EmitFeeStatement,
            LumioFeatureFlag::STORAGE_DELETION_REFUND => FeatureFlag::StorageDeletionRefund,
            LumioFeatureFlag::AGGREGATOR_V2_API => FeatureFlag::AggregatorV2Api,
            LumioFeatureFlag::SIGNATURE_CHECKER_V2_SCRIPT_FIX => FeatureFlag::SignatureCheckerV2ScriptFix,
            LumioFeatureFlag::SAFER_RESOURCE_GROUPS => FeatureFlag::SaferResourceGroups,
            LumioFeatureFlag::SAFER_METADATA => FeatureFlag::SaferMetadata,
            LumioFeatureFlag::SINGLE_SENDER_AUTHENTICATOR => FeatureFlag::SingleSenderAuthenticator,
            LumioFeatureFlag::SPONSORED_AUTOMATIC_ACCOUNT_V1_CREATION => FeatureFlag::SponsoredAutomaticAccountCreation,
            LumioFeatureFlag::FEE_PAYER_ACCOUNT_OPTIONAL => FeatureFlag::FeePayerAccountOptional,
            LumioFeatureFlag::AGGREGATOR_V2_DELAYED_FIELDS => FeatureFlag::AggregatorV2DelayedFields,
            LumioFeatureFlag::CONCURRENT_TOKEN_V2 => FeatureFlag::ConcurrentTokenV2,
            LumioFeatureFlag::LIMIT_MAX_IDENTIFIER_LENGTH => FeatureFlag::LimitMaxIdentifierLength,
            LumioFeatureFlag::OPERATOR_BENEFICIARY_CHANGE => FeatureFlag::OperatorBeneficiaryChange,
            LumioFeatureFlag::VM_BINARY_FORMAT_V7 => FeatureFlag::VMBinaryFormatV7,
            LumioFeatureFlag::RESOURCE_GROUPS_SPLIT_IN_VM_CHANGE_SET => FeatureFlag::ResourceGroupsSplitInVmChangeSet,
            LumioFeatureFlag::COMMISSION_CHANGE_DELEGATION_POOL => FeatureFlag::CommissionChangeDelegationPool,
            LumioFeatureFlag::BN254_STRUCTURES => FeatureFlag::Bn254Structures,
            LumioFeatureFlag::WEBAUTHN_SIGNATURE => FeatureFlag::WebAuthnSignature,
            LumioFeatureFlag::_DEPRECATED_RECONFIGURE_WITH_DKG => FeatureFlag::ReconfigureWithDkg,
            LumioFeatureFlag::KEYLESS_ACCOUNTS => FeatureFlag::KeylessAccounts,
            LumioFeatureFlag::KEYLESS_BUT_ZKLESS_ACCOUNTS => FeatureFlag::KeylessButZklessAccounts,
            LumioFeatureFlag::_DEPRECATED_REMOVE_DETAILED_ERROR_FROM_HASH => FeatureFlag::RemoveDetailedError,
            LumioFeatureFlag::JWK_CONSENSUS => FeatureFlag::JwkConsensus,
            LumioFeatureFlag::CONCURRENT_FUNGIBLE_ASSETS => FeatureFlag::ConcurrentFungibleAssets,
            LumioFeatureFlag::REFUNDABLE_BYTES => FeatureFlag::RefundableBytes,
            LumioFeatureFlag::OBJECT_CODE_DEPLOYMENT => FeatureFlag::ObjectCodeDeployment,
            LumioFeatureFlag::MAX_OBJECT_NESTING_CHECK => FeatureFlag::MaxObjectNestingCheck,
            LumioFeatureFlag::KEYLESS_ACCOUNTS_WITH_PASSKEYS => FeatureFlag::KeylessAccountsWithPasskeys,
            LumioFeatureFlag::MULTISIG_V2_ENHANCEMENT => FeatureFlag::MultisigV2Enhancement,
            LumioFeatureFlag::DELEGATION_POOL_ALLOWLISTING => FeatureFlag::DelegationPoolAllowlisting,
            LumioFeatureFlag::MODULE_EVENT_MIGRATION => FeatureFlag::ModuleEventMigration,
            LumioFeatureFlag::_REJECT_UNSTABLE_BYTECODE => FeatureFlag::RejectUnstableBytecode,
            LumioFeatureFlag::TRANSACTION_CONTEXT_EXTENSION => FeatureFlag::TransactionContextExtension,
            LumioFeatureFlag::COIN_TO_FUNGIBLE_ASSET_MIGRATION => FeatureFlag::CoinToFungibleAssetMigration,
            LumioFeatureFlag::PRIMARY_LUM_FUNGIBLE_STORE_AT_USER_ADDRESS => FeatureFlag::PrimaryAPTFungibleStoreAtUserAddress,
            LumioFeatureFlag::OBJECT_NATIVE_DERIVED_ADDRESS => FeatureFlag::ObjectNativeDerivedAddress,
            LumioFeatureFlag::DISPATCHABLE_FUNGIBLE_ASSET => FeatureFlag::DispatchableFungibleAsset,
            LumioFeatureFlag::NEW_ACCOUNTS_DEFAULT_TO_FA_LUM_STORE => FeatureFlag::NewAccountsDefaultToFaAptStore,
            LumioFeatureFlag::OPERATIONS_DEFAULT_TO_FA_LUM_STORE => FeatureFlag::OperationsDefaultToFaAptStore,
            LumioFeatureFlag::AGGREGATOR_V2_IS_AT_LEAST_API => FeatureFlag::AggregatorV2IsAtLeastApi,
            LumioFeatureFlag::CONCURRENT_FUNGIBLE_BALANCE => FeatureFlag::ConcurrentFungibleBalance,
            LumioFeatureFlag::DEFAULT_TO_CONCURRENT_FUNGIBLE_BALANCE => FeatureFlag::DefaultToConcurrentFungibleBalance,
            LumioFeatureFlag::_LIMIT_VM_TYPE_SIZE => FeatureFlag::LimitVMTypeSize,
            LumioFeatureFlag::ABORT_IF_MULTISIG_PAYLOAD_MISMATCH => FeatureFlag::AbortIfMultisigPayloadMismatch,
            LumioFeatureFlag::_DISALLOW_USER_NATIVES => FeatureFlag::DisallowUserNative,
            LumioFeatureFlag::ALLOW_SERIALIZED_SCRIPT_ARGS => FeatureFlag::AllowSerializedScriptArgs,
            LumioFeatureFlag::_USE_COMPATIBILITY_CHECKER_V2 => FeatureFlag::UseCompatibilityCheckerV2,
            LumioFeatureFlag::ENABLE_ENUM_TYPES => FeatureFlag::EnableEnumTypes,
            LumioFeatureFlag::ENABLE_RESOURCE_ACCESS_CONTROL => FeatureFlag::EnableResourceAccessControl,
            LumioFeatureFlag::_REJECT_UNSTABLE_BYTECODE_FOR_SCRIPT => FeatureFlag::RejectUnstableBytecodeForScript,
            LumioFeatureFlag::FEDERATED_KEYLESS => FeatureFlag::FederatedKeyless,
            LumioFeatureFlag::TRANSACTION_SIMULATION_ENHANCEMENT => FeatureFlag::TransactionSimulationEnhancement,
            LumioFeatureFlag::COLLECTION_OWNER => FeatureFlag::CollectionOwner,
            LumioFeatureFlag::NATIVE_MEMORY_OPERATIONS => FeatureFlag::NativeMemoryOperations,
            LumioFeatureFlag::_ENABLE_LOADER_V2 => FeatureFlag::EnableLoaderV2,
            LumioFeatureFlag::_DISALLOW_INIT_MODULE_TO_PUBLISH_MODULES => FeatureFlag::DisallowInitModuleToPublishModules,
            LumioFeatureFlag::ENABLE_CALL_TREE_AND_INSTRUCTION_VM_CACHE => FeatureFlag::EnableCallTreeAndInstructionVMCache,
            LumioFeatureFlag::PERMISSIONED_SIGNER => FeatureFlag::PermissionedSigner,
            LumioFeatureFlag::ACCOUNT_ABSTRACTION => FeatureFlag::AccountAbstraction,
            LumioFeatureFlag::VM_BINARY_FORMAT_V8 => FeatureFlag::VMBinaryFormatV8,
            LumioFeatureFlag::BULLETPROOFS_BATCH_NATIVES => FeatureFlag::BulletproofsBatchNatives,
            LumioFeatureFlag::DERIVABLE_ACCOUNT_ABSTRACTION => FeatureFlag::DerivableAccountAbstraction,
            LumioFeatureFlag::ENABLE_FUNCTION_VALUES => FeatureFlag::EnableFunctionValues,
            LumioFeatureFlag::NEW_ACCOUNTS_DEFAULT_TO_FA_STORE => FeatureFlag::NewAccountsDefaultToFaStore,
            LumioFeatureFlag::DEFAULT_ACCOUNT_RESOURCE => FeatureFlag::DefaultAccountResource,
            LumioFeatureFlag::JWK_CONSENSUS_PER_KEY_MODE => FeatureFlag::JwkConsensusPerKeyMode,
            LumioFeatureFlag::TRANSACTION_PAYLOAD_V2 => FeatureFlag::TransactionPayloadV2,
            LumioFeatureFlag::ORDERLESS_TRANSACTIONS => FeatureFlag::OrderlessTransactions,
            LumioFeatureFlag::ENABLE_LAZY_LOADING => FeatureFlag::EnableLazyLoading,
            LumioFeatureFlag::CALCULATE_TRANSACTION_FEE_FOR_DISTRIBUTION => FeatureFlag::CalculateTransactionFeeForDistribution,
            LumioFeatureFlag::DISTRIBUTE_TRANSACTION_FEE => FeatureFlag::DistributeTransactionFee,
            LumioFeatureFlag::MONOTONICALLY_INCREASING_COUNTER => FeatureFlag::MonotonicallyIncreasingCounter,
            LumioFeatureFlag::ENABLE_CAPTURE_OPTION => FeatureFlag::EnableCaptureOption,
        }
    }
}

impl FromSpecImpl<LumioFeatureFlag> for FeatureFlag {
    open spec fn obeys_from_spec() -> bool {
        true
    }

    open spec fn from_spec(f: LumioFeatureFlag) -> Self {
        f.in_release()
    }
}

/// The flags of a release file and the flags on the chain correspond one
/// to one: going to the chain and back gives the flag that one started from.
pub proof fn lemma_release_flag_round_trip(f: FeatureFlag)
    ensures
        f.on_chain().in_release() == f,
{
}

/// The flags on the chain and the flags of a release file correspond one
/// to one: going to the release file and back gives the flag that one
/// started from.
pub proof fn lemma_chain_flag_round_trip(f: LumioFeatureFlag)
    ensures
        f.in_release().on_chain() == f,
{
}

/// The position of a flag lies within the list of all flags.
pub proof fn lemma_position_in_range(f: FeatureFlag)
    ensures
        0 <= f.position() < FEATURE_FLAG_COUNT,
{
}

/// Two flags at one position are one flag.
pub proof fn lemma_position_is_one_to_one(f: FeatureFlag, g: FeatureFlag)
    requires
        f.position() == g.position(),
    ensures
        f == g,
{
}

/// The flag occurs in the list.
#[verifier::opaque]
pub open spec fn lists(flags: Seq<FeatureFlag>, f: FeatureFlag) -> bool {
    exists|i: int| 0 <= i < flags.len() && flags[i] == f
}

/// No flag occurs twice in the list.
pub open spec fn distinct_flags(flags: Seq<FeatureFlag>) -> bool {
    forall|i: int, j: int| 0 <= i < j < flags.len() ==> flags[i] != flags[j]
}

/// Tells whether the flag occurs in the list.
pub fn is_listed(flags: &Vec<FeatureFlag>, f: FeatureFlag) -> (b: bool)
    ensures
        b == lists(flags@, f),
{
    let mut i: usize = 0;
    while i < flags.len()
        invariant
            i <= flags.len(),
            forall|j: int| 0 <= j < i ==> flags@[j] != f,
        decreases flags.len() - i,
    {
        if flags[i] == f {
            proof {
                reveal(lists);
            }
            return true;
        }
        i = i + 1;
    }
    proof {
        reveal(lists);
    }
    false
}

/// The features that are switched on on the chain.
#[derive(Clone, Debug)]
pub struct LumioFeatures {
    pub enabled: Vec<LumioFeatureFlag>,
}

impl LumioFeatures {
    /// The feature is switched on on the chain.
    pub open spec fn spec_is_enabled(&self, f: LumioFeatureFlag) -> bool {
        exists|i: int| 0 <= i < self.enabled@.len() && self.enabled@[i] == f
    }

    /// Tells whether the feature is switched on on the chain.
    pub fn is_enabled(&self, f: LumioFeatureFlag) -> (b: bool)
        ensures
            b == self.spec_is_enabled(f),
    {
        let mut i: usize = 0;
        while i < self.enabled.len()
            invariant
                i <= self.enabled.len(),
                forall|j: int| 0 <= j < i ==> self.enabled@[j] != f,
            decreases self.enabled.len() - i,
        {
            if self.enabled[i] == f {
                return true;
            }
            i = i + 1;
        }
        false
    }
}

/// Features to switch on and features to switch off.
#[derive(Clone, Debug)]
pub struct Features {
    pub enabled: Vec<FeatureFlag>,
    pub disabled: Vec<FeatureFlag>,
}

impl Features {
    /// Nothing to switch on, nothing to switch off.
    pub fn empty() -> (features: Self)
        ensures
            features.enabled@.len() == 0,
            features.disabled@.len() == 0,
    {
        Self { enabled: Vec::new(), disabled: Vec::new() }
    }

    /// Lays `rhs` over these features. A flag is switched on afterwards if
    /// it was before or `rhs` switches it on, unless `rhs` switches it off.
    /// A flag is switched off afterwards if `rhs` switches it off, or if it
    /// was before and `rhs` does not switch it on. No flag is listed twice
    /// in a list afterwards. The order within the lists is not part of the
    /// result.
    pub fn squash(&mut self, rhs: Self)
        ensures
            forall|f: FeatureFlag|
                #[trigger] lists(final(self).enabled@, f) <==> (lists(old(self).enabled@, f)
                    || lists(rhs.enabled@, f)) && !lists(rhs.disabled@, f),
            forall|f: FeatureFlag|
                #[trigger] lists(final(self).disabled@, f) <==> (lists(old(self).disabled@, f)
                    && !lists(rhs.enabled@, f)) || lists(rhs.disabled@, f),
            distinct_flags(final(self).enabled@),
            distinct_flags(final(self).disabled@),
    {
        let mut enabled: Vec<FeatureFlag> = Vec::new();
        let mut disabled: Vec<FeatureFlag> = Vec::new();
        proof {
            assert forall|f: FeatureFlag| !lists(enabled@, f) && !lists(disabled@, f) by {
                reveal(lists);
            }
        }
        add_unless(&mut enabled, &self.enabled, &rhs.disabled);
        let ghost first = enabled@;
        add_unless(&mut enabled, &rhs.enabled, &rhs.disabled);
        add_unless(&mut disabled, &self.disabled, &rhs.enabled);
        let ghost kept = disabled@;
        let none: Vec<FeatureFlag> = Vec::new();
        add_unless(&mut disabled, &rhs.disabled, &none);
        proof {
            assert forall|f: FeatureFlag|
                #[trigger] lists(enabled@, f) <==> (lists(self.enabled@, f) || lists(
                    rhs.enabled@,
                    f,
                )) && !lists(rhs.disabled@, f) by {
                assert(lists(first, f) <==> lists(self.enabled@, f) && !lists(rhs.disabled@, f));
            }
            assert forall|f: FeatureFlag|
                #[trigger] lists(disabled@, f) <==> (lists(self.disabled@, f) && !lists(
                    rhs.enabled@,
                    f,
                )) || lists(rhs.disabled@, f) by {
                assert(lists(kept, f) <==> lists(self.disabled@, f) && !lists(rhs.enabled@, f));
                assert(!lists(none@, f)) by {
                    reveal(lists);
                }
            }
        }
        self.enabled = enabled;
        self.disabled = disabled;
    }

    /// Tells whether there is nothing to switch on and nothing to switch off.
    pub fn is_empty(&self) -> (b: bool)
        ensures
            b == (self.enabled@.len() == 0 && self.disabled@.len() == 0),
    {
        self.enabled.len() == 0 && self.disabled.len() == 0
    }

    /// These features differ from what is switched on on the chain: a
    /// feature to switch on is off there, or a feature to switch off is on
    /// there.
    pub open spec fn differs_from(&self, on_chain_features: &LumioFeatures) -> bool {
        (exists|i: int|
            0 <= i < self.enabled@.len() && !on_chain_features.spec_is_enabled(
                (#[trigger] self.enabled@[i]).on_chain(),
            )) || (exists|i: int|
            0 <= i < self.disabled@.len() && on_chain_features.spec_is_enabled(
                (#[trigger] self.disabled@[i]).on_chain(),
            ))
    }

    /// Tells whether these features differ from what is switched on on the
    /// chain: whether a feature to switch on is off there, or a feature to
    /// switch off is on there.
    pub fn has_modified(&self, on_chain_features: &LumioFeatures) -> (b: bool)
        ensures
            b == self.differs_from(on_chain_features),
    {
        let mut i: usize = 0;
        while i < self.enabled.len()
            invariant
                i <= self.enabled.len(),
                forall|j: int|
                    0 <= j < i ==> on_chain_features.spec_is_enabled(
                        (#[trigger] self.enabled@[j]).on_chain(),
                    ),
            decreases self.enabled.len() - i,
        {
            if !on_chain_features.is_enabled(LumioFeatureFlag::from(self.enabled[i])) {
                return true;
            }
            i = i + 1;
        }
        let mut k: usize = 0;
        while k < self.disabled.len()
            invariant
                k <= self.disabled.len(),
                forall|j: int|
                    0 <= j < self.enabled@.len() ==> on_chain_features.spec_is_enabled(
                        (#[trigger] self.enabled@[j]).on_chain(),
                    ),
                forall|j: int|
                    0 <= j < k ==> !on_chain_features.spec_is_enabled(
                        (#[trigger] self.disabled@[j]).on_chain(),
                    ),
            decreases self.disabled.len() - k,
        {
            if on_chain_features.is_enabled(LumioFeatureFlag::from(self.disabled[k])) {
                return true;
            }
            k = k + 1;
        }
        false
    }

    /// The features as they stand on the chain: every flag that is switched
    /// on there is to switch on, every other flag is to switch off. Both
    /// lists are in the order in which the flags are declared.
    pub fn from_on_chain(features: &LumioFeatures) -> (r: Features)
        ensures
            forall|f: FeatureFlag|
                #[trigger] lists(r.enabled@, f) <==> features.spec_is_enabled(f.on_chain()),
            forall|f: FeatureFlag|
                #[trigger] lists(r.disabled@, f) <==> !features.spec_is_enabled(f.on_chain()),
            distinct_flags(r.enabled@),
            distinct_flags(r.disabled@),
    {
        let all = FeatureFlag::all();
        let mut enabled: Vec<FeatureFlag> = Vec::new();
        let mut disabled: Vec<FeatureFlag> = Vec::new();
        let mut i: usize = 0;
        proof {
            assert forall|f: FeatureFlag| !lists(enabled@, f) && !lists(disabled@, f) by {
                reveal(lists);
            }
            assert forall|f: FeatureFlag| 0 <= f.position() by {
                lemma_position_in_range(f);
            }
        }
        while i < all.len()
            invariant
                i <= all.len(),
                all@.len() == FEATURE_FLAG_COUNT,
                forall|f: FeatureFlag| #[trigger] all@[f.position()] == f,
                forall|j: int| 0 <= j < all@.len() ==> (#[trigger] all@[j]).position() == j,
                forall|f: FeatureFlag|
                    #[trigger] lists(enabled@, f) <==> f.position() < i
                        && features.spec_is_enabled(f.on_chain()),
                forall|f: FeatureFlag|
                    #[trigger] lists(disabled@, f) <==> f.position() < i
                        && !features.spec_is_enabled(f.on_chain()),
                distinct_flags(enabled@),
                distinct_flags(disabled@),
            decreases all.len() - i,
        {
            let feature = all[i];
            let ghost e = enabled@;
            let ghost d = disabled@;
            let on = features.is_enabled(LumioFeatureFlag::from(feature));
            proof {
                assert(feature.position() == i);
                assert(!lists(e, feature));
                assert(!lists(d, feature));
            }
            if on {
                enabled.push(feature);
                proof {
                    lemma_distinct_push(e, feature);
                }
            } else {
                disabled.push(feature);
                proof {
                    lemma_distinct_push(d, feature);
                }
            }
            proof {
                assert forall|f: FeatureFlag|
                    #[trigger] lists(enabled@, f) <==> f.position() < i + 1
                        && features.spec_is_enabled(f.on_chain()) by {
                    assert(all@[f.position()] == f);
                    if on {
                        lemma_lists_push(e, feature, f);
                    }
                    assert(lists(e, f) <==> f.position() < i && features.spec_is_enabled(
                        f.on_chain(),
                    ));
                }
                assert forall|f: FeatureFlag|
                    #[trigger] lists(disabled@, f) <==> f.position() < i + 1
                        && !features.spec_is_enabled(f.on_chain()) by {
                    assert(all@[f.position()] == f);
                    if !on {
                        lemma_lists_push(d, feature, f);
                    }
                    assert(lists(d, f) <==> f.position() < i && !features.spec_is_enabled(
                        f.on_chain(),
                    ));
                }
            }
            i = i + 1;
        }
        proof {
            assert forall|f: FeatureFlag|
                #[trigger] lists(enabled@, f) <==> features.spec_is_enabled(f.on_chain()) by {
                lemma_position_in_range(f);
            }
            assert forall|f: FeatureFlag|
                #[trigger] lists(disabled@, f) <==> !features.spec_is_enabled(f.on_chain()) by {
                lemma_position_in_range(f);
            }
        }
        Features { enabled, disabled }
    }
}

/// A list extended by a flag lists that flag and what it listed before.
pub proof fn lemma_lists_push(flags: Seq<FeatureFlag>, f: FeatureFlag, g: FeatureFlag)
    ensures
        lists(flags.push(f), g) <==> lists(flags, g) || g == f,
{
    reveal(lists);
    let more = flags.push(f);
    if lists(flags, g) {
        let i = choose|i: int| 0 <= i < flags.len() && flags[i] == g;
        assert(more[i] == g);
    }
    if g == f {
        assert(more[flags.len() as int] == g);
    }
    if lists(more, g) {
        let i = choose|i: int| 0 <= i < more.len() && more[i] == g;
        if i < flags.len() {
            assert(flags[i] == g);
        }
    }
}

/// A list without repetition, extended by a flag that it does not list,
/// is without repetition.
pub proof fn lemma_distinct_push(flags: Seq<FeatureFlag>, f: FeatureFlag)
    requires
        distinct_flags(flags),
        !lists(flags, f),
    ensures
        distinct_flags(flags.push(f)),
{
    reveal(lists);
    let more = flags.push(f);
    assert forall|i: int, j: int| 0 <= i < j < more.len() implies more[i] != more[j] by {
        if j == flags.len() {
            assert(flags[i] == more[i]);
        } else {
            assert(flags[i] == more[i] && flags[j] == more[j]);
        }
    }
}

/// Adds to `target` every flag of `source` that is not in `except` and not
/// yet in `target`.
fn add_unless(target: &mut Vec<FeatureFlag>, source: &Vec<FeatureFlag>, except: &Vec<FeatureFlag>)
    requires
        distinct_flags(old(target)@),
    ensures
        distinct_flags(final(target)@),
        forall|f: FeatureFlag|
            #[trigger] lists(final(target)@, f) <==> lists(old(target)@, f) || (lists(source@, f)
                && !lists(except@, f)),
{
    let mut i: usize = 0;
    proof {
        assert forall|f: FeatureFlag| !lists(source@.take(0), f) by {
            reveal(lists);
        }
    }
    while i < source.len()
        invariant
            i <= source.len(),
            distinct_flags(target@),
            forall|f: FeatureFlag|
                #[trigger] lists(target@, f) <==> lists(old(target)@, f) || (lists(
                    source@.take(i as int),
                    f,
                ) && !lists(except@, f)),
        decreases source.len() - i,
    {
        let f = source[i];
        let ghost before = target@;
        let added = !is_listed(except, f) && !is_listed(target, f);
        if added {
            target.push(f);
            proof {
                lemma_distinct_push(before, f);
            }
        }
        proof {
            assert(source@.take(i + 1) =~= source@.take(i as int).push(f));
            assert forall|g: FeatureFlag|
                #[trigger] lists(target@, g) <==> lists(old(target)@, g) || (lists(
                    source@.take(i + 1),
                    g,
                ) && !lists(except@, g)) by {
                lemma_lists_push(source@.take(i as int), f, g);
                if added {
                    lemma_lists_push(before, f, g);
                }
                assert(lists(before, g) <==> lists(old(target)@, g) || (lists(
                    source@.take(i as int),
                    g,
                ) && !lists(except@, g)));
            }
        }
        i = i + 1;
    }
    assert(source@.take(source.len() as int) =~= source@);
}

/// The numbers as text, at most twenty a line: each number is followed by a
/// comma, and a blank stands between two numbers of a line. These are the
/// first `upto` numbers.
pub open spec fn blob_items(data: Seq<u64>, upto: nat) -> Seq<Seq<char>>
    decreases upto,
{
    if upto == 0 {
        Seq::empty()
    } else {
        let i = (upto - 1) as nat;
        let item = decimal_text(data[i as int] as nat) + ","@;
        let before = blob_items(data, i);
        if i % 20 == 0 {
            before.push(item)
        } else {
            before.drop_last().push(before.last() + " "@ + item)
        }
    }
}

/// The lines as texts.
pub open spec fn line_views(lines: Seq<String>) -> Seq<Seq<char>> {
    lines.map_values(|l: String| l@)
}

/// The lines, each moved in by four blanks.
pub open spec fn indented(lines: Seq<Seq<char>>) -> Seq<Seq<char>> {
    lines.map_values(|l: Seq<char>| "    "@ + l)
}

/// The numbers as a vector literal, line by line: the opening line, the
/// numbers, twenty a line and moved in by four blanks, and the closing
/// line. Where there is no number, one empty line stands between the
/// opening line and the closing line.
pub open spec fn blob_lines(data: Seq<u64>) -> Seq<Seq<char>> {
    seq!["vector["@] + if data.len() == 0 {
        seq![Seq::<char>::empty()]
    } else {
        indented(blob_items(data, data.len()))
    } + seq!["]"@]
}

/// Writes the numbers as text, at most twenty a line.
fn write_blob_items(data: &[u64]) -> (lines: Vec<String>)
    ensures
        line_views(lines@) == blob_items(data@, data@.len()),
{
    let mut lines: Vec<String> = Vec::new();
    let mut current = String::new();
    let mut i: usize = 0;
    assert(line_views(lines@) =~= blob_items(data@, 0));
    while i < data.len()
        invariant
            i <= data.len(),
            i % 20 == 0 ==> line_views(lines@) == blob_items(data@, i as nat),
            i % 20 != 0 ==> line_views(lines@).push(current@) == blob_items(data@, i as nat),
        decreases data.len() - i,
    {
        let mut item = decimal(data[i]);
        item.append(",");
        if i % 20 == 0 {
            current = item;
        } else {
            current.append(" ");
            current.append(item.as_str());
        }
        proof {
            let before = blob_items(data@, i as nat);
            let after = blob_items(data@, (i + 1) as nat);
            if i % 20 != 0 {
                assert(before.drop_last() =~= line_views(lines@));
                assert(after =~= line_views(lines@).push(current@));
            } else {
                assert(after =~= line_views(lines@).push(current@));
            }
        }
        if (i + 1) % 20 == 0 {
            proof {
                assert(line_views(lines@.push(current)) =~= line_views(lines@).push(current@));
            }
            lines.push(current);
            current = String::new();
        }
        i = i + 1;
    }
    if i % 20 != 0 {
        proof {
            assert(line_views(lines@.push(current)) =~= line_views(lines@).push(current@));
        }
        lines.push(current);
    }
    lines
}

/// Writes the numbers as a vector literal, line by line: `vector[`, then
/// the numbers, twenty a line, each followed by a comma, with a blank
/// between two numbers of a line and four blanks in front of the line, then
/// `]`. Where there is no number, one empty line stands in between.
pub fn generate_features_blob(data: &[u64]) -> (lines: Vec<String>)
    ensures
        line_views(lines@) == blob_lines(data@),
{
    let items = write_blob_items(data);
    let mut lines: Vec<String> = Vec::new();
    lines.push("vector[".to_owned());
    if items.len() == 0 {
        lines.push(String::new());
    } else {
        let mut i: usize = 0;
        while i < items.len()
            invariant
                i <= items.len(),
                lines@.len() == 1 + i,
                lines@[0]@ == "vector["@,
                forall|j: int|
                    0 <= j < i ==> (#[trigger] lines@[1 + j])@ == "    "@ + items@[j]@,
            decreases items.len() - i,
        {
            let mut line = "    ".to_owned();
            line.append(items[i].as_str());
            lines.push(line);
            i = i + 1;
        }
    }
    lines.push("]".to_owned());
    proof {
        let target = blob_lines(data@);
        let given = line_views(lines@);
        assert(line_views(items@) == blob_items(data@, data@.len()));
        assert(data@.len() == 0 <==> items@.len() == 0) by {
            lemma_blob_items_len(data@, data@.len());
        }
        assert(given.len() == target.len());
        assert forall|j: int| 0 <= j < given.len() implies given[j] == target[j] by {
            if 1 <= j < given.len() - 1 && items@.len() > 0 {
                assert(lines@[1 + (j - 1)]@ == "    "@ + items@[j - 1]@);
                assert(line_views(items@)[j - 1] == items@[j - 1]@);
            }
        }
        assert(given =~= target);
    }
    lines
}

/// There are lines of numbers exactly if there are numbers.
proof fn lemma_blob_items_len(data: Seq<u64>, upto: nat)
    ensures
        blob_items(data, upto).len() == 0 <==> upto == 0,
    decreases upto,
{
    if upto > 0 {
        lemma_blob_items_len(data, (upto - 1) as nat);
    }
}

/// The names of the flags, with a comma and a blank between two of them.
pub open spec fn joined_names(flags: Seq<FeatureFlag>) -> Seq<char>
    decreases flags.len(),
{
    if flags.len() == 0 {
        Seq::empty()
    } else if flags.len() == 1 {
        flags[0].spec_name()
    } else {
        joined_names(flags.drop_last()) + ", "@ + flags.last().spec_name()
    }
}

/// The text of a list of flags: their names in square brackets.
pub open spec fn flag_list_text(flags: Seq<FeatureFlag>) -> Seq<char> {
    "["@ + joined_names(flags) + "]"@
}

/// Writes a list of flags: their names in square brackets, with a comma
/// and a blank between two of them.
pub fn flag_list(flags: &Vec<FeatureFlag>) -> (text: String)
    ensures
        text@ == flag_list_text(flags@),
{
    let mut text = "[".to_owned();
    let mut i: usize = 0;
    while i < flags.len()
        invariant
            i <= flags.len(),
            text@ == "["@ + joined_names(flags@.take(i as int)),
        decreases flags.len() - i,
    {
        proof {
            assert(flags@.take(i + 1).drop_last() =~= flags@.take(i as int));
            assert(flags@.take(i + 1).last() == flags@[i as int]);
            if i == 0 {
                assert(flags@.take(1)[0] == flags@[0]);
            }
        }
        if i > 0 {
            text.append(", ");
        }
        text.append(flags[i].name());
        proof {
            assert(text@ =~= "["@ + joined_names(flags@.take(i + 1)));
        }
        i = i + 1;
    }
    proof {
        assert(flags@.take(flags.len() as int) =~= flags@);
    }
    text.append("]");
    text
}

/// The heading of a proposal that changes feature flags, line by line:
/// what is changed, as comments.
pub open spec fn proposal_header_lines(features: &Features) -> Seq<Seq<char>> {
    seq![
        "// Modifying on-chain feature flags: "@,
        "// Enabled Features: "@ + flag_list_text(features.enabled@),
        "// Disabled Features: "@ + flag_list_text(features.disabled@),
        "//"@,
    ]
}

/// Writes the heading of a proposal that changes feature flags: four lines
/// of comment that say which features are switched on and which off.
pub fn proposal_header(features: &Features) -> (lines: Vec<String>)
    ensures
        line_views(lines@) == proposal_header_lines(features),
{
    let mut lines: Vec<String> = Vec::new();
    lines.push("// Modifying on-chain feature flags: ".to_owned());
    let mut enabled = "// Enabled Features: ".to_owned();
    let list = flag_list(&features.enabled);
    enabled.append(list.as_str());
    lines.push(enabled);
    let mut disabled = "// Disabled Features: ".to_owned();
    let list = flag_list(&features.disabled);
    disabled.append(list.as_str());
    lines.push(disabled);
    lines.push("//".to_owned());
    assert(line_views(lines@) =~= proposal_header_lines(features));
    lines
}

/// The statement that binds a blob of numbers to a name, line by line, and
/// the empty line after it.
pub open spec fn blob_statement(name: Seq<char>, data: Seq<u64>) -> Seq<Seq<char>> {
    let blob = blob_lines(data);
    seq!["let "@ + name + ": vector<u64> = "@ + blob[0]] + blob.subrange(1, blob.len() - 1)
        + seq![blob.last() + ";"@, Seq::<char>::empty()]
}

/// The body of a proposal that changes feature flags, line by line: the
/// numbers of the features to switch on, the numbers of the features to
/// switch off, the call that changes the flags for the next epoch, and the
/// call that begins it.
pub open spec fn proposal_body_lines(
    enabled: Seq<u64>,
    disabled: Seq<u64>,
    signer_arg: Seq<char>,
) -> Seq<Seq<char>> {
    blob_statement("enabled_blob"@, enabled) + blob_statement("disabled_blob"@, disabled) + seq![
        "features::change_feature_flags_for_next_epoch("@ + signer_arg
            + ", enabled_blob, disabled_blob);"@,
        "lumio_governance::reconfigure("@ + signer_arg + ");"@,
    ]
}

/// Appends to `lines` the statement that binds a blob of numbers to a name.
fn push_blob_statement(lines: &mut Vec<String>, name: &str, data: &[u64])
    ensures
        line_views(final(lines)@) == line_views(old(lines)@) + blob_statement(name@, data@),
{
    let ghost before = line_views(lines@);
    let mut blob = generate_features_blob(data);
    let ghost blob_view = line_views(blob@);
    assert(blob_view.len() >= 3);
    let count = blob.len();
    let mut first = "let ".to_owned();
    first.append(name);
    first.append(": vector<u64> = ");
    first.append(blob[0].as_str());
    proof {
        assert(blob_view[0] == blob@[0]@);
        assert(line_views(lines@.push(first)) =~= before.push(first@));
    }
    lines.push(first);
    let mut i: usize = 1;
    while i + 1 < count
        invariant
            1 <= i < count,
            count == blob@.len(),
            blob_view == line_views(blob@),
            line_views(lines@) == before.push(
                "let "@ + name@ + ": vector<u64> = "@ + blob_view[0],
            ) + blob_view.subrange(1, i as int),
        decreases count - i,
    {
        let line = blob[i].clone();
        proof {
            assert(blob_view[i as int] == blob@[i as int]@);
            assert(line_views(lines@.push(line)) =~= line_views(lines@).push(line@));
            assert(blob_view.subrange(1, i + 1) =~= blob_view.subrange(1, i as int).push(
                blob_view[i as int],
            ));
        }
        lines.push(line);
        i = i + 1;
    }
    let mut last = blob[count - 1].clone();
    last.append(";");
    proof {
        assert(blob_view[count - 1] == blob@[count - 1]@);
        assert(blob_view.last() == blob_view[count - 1]);
        assert(line_views(lines@.push(last)) =~= line_views(lines@).push(last@));
    }
    lines.push(last);
    let empty = String::new();
    proof {
        assert(line_views(lines@.push(empty)) =~= line_views(lines@).push(empty@));
    }
    lines.push(empty);
    proof {
        assert(line_views(lines@) =~= before + blob_statement(name@, data@));
    }
}

/// Writes the body of a proposal that changes feature flags, line by line.
/// `enabled` and `disabled` are the numbers of the features on the chain;
/// `signer_arg` is the text of the argument that stands for the signer.
pub fn proposal_body(enabled: &[u64], disabled: &[u64], signer_arg: &str) -> (lines: Vec<String>)
    requires
        enabled@.len() < u16::MAX,
        disabled@.len() < u16::MAX,
    ensures
        line_views(lines@) == proposal_body_lines(enabled@, disabled@, signer_arg@),
{
    let mut lines: Vec<String> = Vec::new();
    assert(line_views(lines@) =~= Seq::<Seq<char>>::empty());
    push_blob_statement(&mut lines, "enabled_blob", enabled);
    push_blob_statement(&mut lines, "disabled_blob", disabled);
    let ghost blobs = line_views(lines@);
    let mut change = "features::change_feature_flags_for_next_epoch(".to_owned();
    change.append(signer_arg);
    change.append(", enabled_blob, disabled_blob);");
    proof {
        assert(line_views(lines@.push(change)) =~= line_views(lines@).push(change@));
    }
    lines.push(change);
    let mut reconfigure = "lumio_governance::reconfigure(".to_owned();
    reconfigure.append(signer_arg);
    reconfigure.append(");");
    proof {
        assert(line_views(lines@.push(reconfigure)) =~= line_views(lines@).push(reconfigure@));
    }
    lines.push(reconfigure);
    proof {
        assert(line_views(lines@) =~= proposal_body_lines(enabled@, disabled@, signer_arg@));
    }
    lines
}

} // verus!
