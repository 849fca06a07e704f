//! Error codes and their wire names.
use vstd::prelude::*;
use crate::errors::SchemaValidationError;
use crate::text::str_eq;

verus! {

/// The error codes of the runtime.
#[derive(Debug, Clone, Copy, PartialEq, Eq, Structural, Hash)]
pub enum ErrorCode {
    ConfigNotFound,
    ConfigInvalid,
    ACLRuleError,
    ACLDenied,
    ModuleNotFound,
    ModuleDisabled,
    ModuleTimeout,
    ModuleLoadError,
    ModuleExecuteError,
    ReloadFailed,
    ExecutionCancelled,
    SchemaValidationError,
    SchemaNotFound,
    SchemaParseError,
    SchemaCircularRef,
    SchemaUnionNoMatch,
    SchemaUnionAmbiguous,
    SchemaMaxDepthExceeded,
    CallDepthExceeded,
    CircularCall,
    CallFrequencyExceeded,
    GeneralInvalidInput,
    GeneralInternalError,
    GeneralNotImplemented,
    FuncMissingTypeHint,
    FuncMissingReturnType,
    BindingInvalidTarget,
    BindingModuleNotFound,
    BindingCallableNotFound,
    BindingNotCallable,
    BindingSchemaMissing,
    BindingSchemaInferenceFailed,
    BindingSchemaModeConflict,
    BindingStrictSchemaIncompatible,
    BindingFileInvalid,
    CircularDependency,
    MiddlewareChainError,
    ApprovalDenied,
    ApprovalTimeout,
    ApprovalPending,
    VersionIncompatible,
    ErrorCodeCollision,
    DependencyNotFound,
    DependencyVersionMismatch,
    ConfigNamespaceDuplicate,
    ConfigNamespaceReserved,
    ConfigEnvPrefixConflict,
    ConfigMountError,
    ConfigBindError,
    ConfigEnvMapConflict,
    ErrorFormatterDuplicate,
    PipelineAbort,
    PipelineConfigInvalid,
    ConfigurationError,
    PipelineHandlerNotSupported,
    PipelineStepInsertionAmbiguous,
    PipelineStepError,
    PipelineStepNotFound,
    PipelineDependencyError,
    StepNotFound,
    StepNotRemovable,
    StepNotReplaceable,
    StepNameDuplicate,
    StrategyNotFound,
    EntryPointNotFound,
    EntryPointAmbiguous,
    EntryPointRuntimeUnsupported,
    NoDiscovererConfigured,
    TaskLimitExceeded,
    VersionConstraintInvalid,
    ModuleIdConflict,
    InvalidSegment,
    IdTooLong,
    CircuitBreakerOpen,
    ModuleReloadConflict,
    SysModuleRegistrationFailed,
    SysModulesDisabled,
    ConfigKeyRestricted,
    InvalidModuleId,
    ContextBindingError,
}

/// The wire name of a code: its name in upper case with underscores.
pub open spec fn wire_name(c: ErrorCode) -> Seq<char> {
    match c {
        ErrorCode::ConfigNotFound => "CONFIG_NOT_FOUND"@,
        ErrorCode::ConfigInvalid => "CONFIG_INVALID"@,
        ErrorCode::ACLRuleError => "ACL_RULE_ERROR"@,
        ErrorCode::ACLDenied => "ACL_DENIED"@,
        ErrorCode::ModuleNotFound => "MODULE_NOT_FOUND"@,
        ErrorCode::ModuleDisabled => "MODULE_DISABLED"@,
        ErrorCode::ModuleTimeout => "MODULE_TIMEOUT"@,
        ErrorCode::ModuleLoadError => "MODULE_LOAD_ERROR"@,
        ErrorCode::ModuleExecuteError => "MODULE_EXECUTE_ERROR"@,
        ErrorCode::ReloadFailed => "RELOAD_FAILED"@,
        ErrorCode::ExecutionCancelled => "EXECUTION_CANCELLED"@,
        ErrorCode::SchemaValidationError => "SCHEMA_VALIDATION_ERROR"@,
        ErrorCode::SchemaNotFound => "SCHEMA_NOT_FOUND"@,
        ErrorCode::SchemaParseError => "SCHEMA_PARSE_ERROR"@,
        ErrorCode::SchemaCircularRef => "SCHEMA_CIRCULAR_REF"@,
        ErrorCode::SchemaUnionNoMatch => "SCHEMA_UNION_NO_MATCH"@,
        ErrorCode::SchemaUnionAmbiguous => "SCHEMA_UNION_AMBIGUOUS"@,
        ErrorCode::SchemaMaxDepthExceeded => "SCHEMA_MAX_DEPTH_EXCEEDED"@,
        ErrorCode::CallDepthExceeded => "CALL_DEPTH_EXCEEDED"@,
        ErrorCode::CircularCall => "CIRCULAR_CALL"@,
        ErrorCode::CallFrequencyExceeded => "CALL_FREQUENCY_EXCEEDED"@,
        ErrorCode::GeneralInvalidInput => "GENERAL_INVALID_INPUT"@,
        ErrorCode::GeneralInternalError => "GENERAL_INTERNAL_ERROR"@,
        ErrorCode::GeneralNotImplemented => "GENERAL_NOT_IMPLEMENTED"@,
        ErrorCode::FuncMissingTypeHint => "FUNC_MISSING_TYPE_HINT"@,
        ErrorCode::FuncMissingReturnType => "FUNC_MISSING_RETURN_TYPE"@,
        ErrorCode::BindingInvalidTarget => "BINDING_INVALID_TARGET"@,
        ErrorCode::BindingModuleNotFound => "BINDING_MODULE_NOT_FOUND"@,
        ErrorCode::BindingCallableNotFound => "BINDING_CALLABLE_NOT_FOUND"@,
        ErrorCode::BindingNotCallable => "BINDING_NOT_CALLABLE"@,
        ErrorCode::BindingSchemaMissing => "BINDING_SCHEMA_MISSING"@,
        ErrorCode::BindingSchemaInferenceFailed => "BINDING_SCHEMA_INFERENCE_FAILED"@,
        ErrorCode::BindingSchemaModeConflict => "BINDING_SCHEMA_MODE_CONFLICT"@,
        ErrorCode::BindingStrictSchemaIncompatible => "BINDING_STRICT_SCHEMA_INCOMPATIBLE"@,
        ErrorCode::BindingFileInvalid => "BINDING_FILE_INVALID"@,
        ErrorCode::CircularDependency => "CIRCULAR_DEPENDENCY"@,
        ErrorCode::MiddlewareChainError => "MIDDLEWARE_CHAIN_ERROR"@,
        ErrorCode::ApprovalDenied => "APPROVAL_DENIED"@,
        ErrorCode::ApprovalTimeout => "APPROVAL_TIMEOUT"@,
        ErrorCode::ApprovalPending => "APPROVAL_PENDING"@,
        ErrorCode::VersionIncompatible => "VERSION_INCOMPATIBLE"@,
        ErrorCode::ErrorCodeCollision => "ERROR_CODE_COLLISION"@,
        ErrorCode::DependencyNotFound => "DEPENDENCY_NOT_FOUND"@,
        ErrorCode::DependencyVersionMismatch => "DEPENDENCY_VERSION_MISMATCH"@,
        ErrorCode::ConfigNamespaceDuplicate => "CONFIG_NAMESPACE_DUPLICATE"@,
        ErrorCode::ConfigNamespaceReserved => "CONFIG_NAMESPACE_RESERVED"@,
        ErrorCode::ConfigEnvPrefixConflict => "CONFIG_ENV_PREFIX_CONFLICT"@,
        ErrorCode::ConfigMountError => "CONFIG_MOUNT_ERROR"@,
        ErrorCode::ConfigBindError => "CONFIG_BIND_ERROR"@,
        ErrorCode::ConfigEnvMapConflict => "CONFIG_ENV_MAP_CONFLICT"@,
        ErrorCode::ErrorFormatterDuplicate => "ERROR_FORMATTER_DUPLICATE"@,
        ErrorCode::PipelineAbort => "PIPELINE_ABORT"@,
        ErrorCode::PipelineConfigInvalid => "PIPELINE_CONFIG_INVALID"@,
        ErrorCode::ConfigurationError => "CONFIGURATION_ERROR"@,
        ErrorCode::PipelineHandlerNotSupported => "PIPELINE_HANDLER_NOT_SUPPORTED"@,
        ErrorCode::PipelineStepInsertionAmbiguous => "PIPELINE_STEP_INSERTION_AMBIGUOUS"@,
        ErrorCode::PipelineStepError => "PIPELINE_STEP_ERROR"@,
        ErrorCode::PipelineStepNotFound => "PIPELINE_STEP_NOT_FOUND"@,
        ErrorCode::PipelineDependencyError => "PIPELINE_DEPENDENCY_ERROR"@,
        ErrorCode::StepNotFound => "STEP_NOT_FOUND"@,
        ErrorCode::StepNotRemovable => "STEP_NOT_REMOVABLE"@,
        ErrorCode::StepNotReplaceable => "STEP_NOT_REPLACEABLE"@,
        ErrorCode::StepNameDuplicate => "STEP_NAME_DUPLICATE"@,
        ErrorCode::StrategyNotFound => "STRATEGY_NOT_FOUND"@,
        ErrorCode::EntryPointNotFound => "ENTRY_POINT_NOT_FOUND"@,
        ErrorCode::EntryPointAmbiguous => "ENTRY_POINT_AMBIGUOUS"@,
        ErrorCode::EntryPointRuntimeUnsupported => "ENTRY_POINT_RUNTIME_UNSUPPORTED"@,
        ErrorCode::NoDiscovererConfigured => "NO_DISCOVERER_CONFIGURED"@,
        ErrorCode::TaskLimitExceeded => "TASK_LIMIT_EXCEEDED"@,
        ErrorCode::VersionConstraintInvalid => "VERSION_CONSTRAINT_INVALID"@,
        ErrorCode::ModuleIdConflict => "MODULE_ID_CONFLICT"@,
        ErrorCode::InvalidSegment => "INVALID_SEGMENT"@,
        ErrorCode::IdTooLong => "ID_TOO_LONG"@,
        ErrorCode::CircuitBreakerOpen => "CIRCUIT_BREAKER_OPEN"@,
        ErrorCode::ModuleReloadConflict => "MODULE_RELOAD_CONFLICT"@,
        ErrorCode::SysModuleRegistrationFailed => "SYS_MODULE_REGISTRATION_FAILED"@,
        ErrorCode::SysModulesDisabled => "SYS_MODULES_DISABLED"@,
        ErrorCode::ConfigKeyRestricted => "CONFIG_KEY_RESTRICTED"@,
        ErrorCode::InvalidModuleId => "INVALID_MODULE_ID"@,
        ErrorCode::ContextBindingError => "CONTEXT_BINDING_ERROR"@,
    }
}

/// The name of a code as it is spelled in the source.
pub open spec fn code_name(c: ErrorCode) -> Seq<char> {
    match c {
        ErrorCode::ConfigNotFound => "ConfigNotFound"@,
        ErrorCode::ConfigInvalid => "ConfigInvalid"@,
        ErrorCode::ACLRuleError => "ACLRuleError"@,
        ErrorCode::ACLDenied => "ACLDenied"@,
        ErrorCode::ModuleNotFound => "ModuleNotFound"@,
        ErrorCode::ModuleDisabled => "ModuleDisabled"@,
        ErrorCode::ModuleTimeout => "ModuleTimeout"@,
        ErrorCode::ModuleLoadError => "ModuleLoadError"@,
        ErrorCode::ModuleExecuteError => "ModuleExecuteError"@,
        ErrorCode::ReloadFailed => "ReloadFailed"@,
        ErrorCode::ExecutionCancelled => "ExecutionCancelled"@,
        ErrorCode::SchemaValidationError => "SchemaValidationError"@,
        ErrorCode::SchemaNotFound => "SchemaNotFound"@,
        ErrorCode::SchemaParseError => "SchemaParseError"@,
        ErrorCode::SchemaCircularRef => "SchemaCircularRef"@,
        ErrorCode::SchemaUnionNoMatch => "SchemaUnionNoMatch"@,
        ErrorCode::SchemaUnionAmbiguous => "SchemaUnionAmbiguous"@,
        ErrorCode::SchemaMaxDepthExceeded => "SchemaMaxDepthExceeded"@,
        ErrorCode::CallDepthExceeded => "CallDepthExceeded"@,
        ErrorCode::CircularCall => "CircularCall"@,
        ErrorCode::CallFrequencyExceeded => "CallFrequencyExceeded"@,
        ErrorCode::GeneralInvalidInput => "GeneralInvalidInput"@,
        ErrorCode::GeneralInternalError => "GeneralInternalError"@,
        ErrorCode::GeneralNotImplemented => "GeneralNotImplemented"@,
        ErrorCode::FuncMissingTypeHint => "FuncMissingTypeHint"@,
        ErrorCode::FuncMissingReturnType => "FuncMissingReturnType"@,
        ErrorCode::BindingInvalidTarget => "BindingInvalidTarget"@,
        ErrorCode::BindingModuleNotFound => "BindingModuleNotFound"@,
        ErrorCode::BindingCallableNotFound => "BindingCallableNotFound"@,
        ErrorCode::BindingNotCallable => "BindingNotCallable"@,
        ErrorCode::BindingSchemaMissing => "BindingSchemaMissing"@,
        ErrorCode::BindingSchemaInferenceFailed => "BindingSchemaInferenceFailed"@,
        ErrorCode::BindingSchemaModeConflict => "BindingSchemaModeConflict"@,
        ErrorCode::BindingStrictSchemaIncompatible => "BindingStrictSchemaIncompatible"@,
        ErrorCode::BindingFileInvalid => "BindingFileInvalid"@,
        ErrorCode::CircularDependency => "CircularDependency"@,
        ErrorCode::MiddlewareChainError => "MiddlewareChainError"@,
        ErrorCode::ApprovalDenied => "ApprovalDenied"@,
        ErrorCode::ApprovalTimeout => "ApprovalTimeout"@,
        ErrorCode::ApprovalPending => "ApprovalPending"@,
        ErrorCode::VersionIncompatible => "VersionIncompatible"@,
        ErrorCode::ErrorCodeCollision => "ErrorCodeCollision"@,
        ErrorCode::DependencyNotFound => "DependencyNotFound"@,
        ErrorCode::DependencyVersionMismatch => "DependencyVersionMismatch"@,
        ErrorCode::ConfigNamespaceDuplicate => "ConfigNamespaceDuplicate"@,
        ErrorCode::ConfigNamespaceReserved => "ConfigNamespaceReserved"@,
        ErrorCode::ConfigEnvPrefixConflict => "ConfigEnvPrefixConflict"@,
        ErrorCode::ConfigMountError => "ConfigMountError"@,
        ErrorCode::ConfigBindError => "ConfigBindError"@,
        ErrorCode::ConfigEnvMapConflict => "ConfigEnvMapConflict"@,
        ErrorCode::ErrorFormatterDuplicate => "ErrorFormatterDuplicate"@,
        ErrorCode::PipelineAbort => "PipelineAbort"@,
        ErrorCode::PipelineConfigInvalid => "PipelineConfigInvalid"@,
        ErrorCode::ConfigurationError => "ConfigurationError"@,
        ErrorCode::PipelineHandlerNotSupported => "PipelineHandlerNotSupported"@,
        ErrorCode::PipelineStepInsertionAmbiguous => "PipelineStepInsertionAmbiguous"@,
        ErrorCode::PipelineStepError => "PipelineStepError"@,
        ErrorCode::PipelineStepNotFound => "PipelineStepNotFound"@,
        ErrorCode::PipelineDependencyError => "PipelineDependencyError"@,
        ErrorCode::StepNotFound => "StepNotFound"@,
        ErrorCode::StepNotRemovable => "StepNotRemovable"@,
        ErrorCode::StepNotReplaceable => "StepNotReplaceable"@,
        ErrorCode::StepNameDuplicate => "StepNameDuplicate"@,
        ErrorCode::StrategyNotFound => "StrategyNotFound"@,
        ErrorCode::EntryPointNotFound => "EntryPointNotFound"@,
        ErrorCode::EntryPointAmbiguous => "EntryPointAmbiguous"@,
        ErrorCode::EntryPointRuntimeUnsupported => "EntryPointRuntimeUnsupported"@,
        ErrorCode::NoDiscovererConfigured => "NoDiscovererConfigured"@,
        ErrorCode::TaskLimitExceeded => "TaskLimitExceeded"@,
        ErrorCode::VersionConstraintInvalid => "VersionConstraintInvalid"@,
        ErrorCode::ModuleIdConflict => "ModuleIdConflict"@,
        ErrorCode::InvalidSegment => "InvalidSegment"@,
        ErrorCode::IdTooLong => "IdTooLong"@,
        ErrorCode::CircuitBreakerOpen => "CircuitBreakerOpen"@,
        ErrorCode::ModuleReloadConflict => "ModuleReloadConflict"@,
        ErrorCode::SysModuleRegistrationFailed => "SysModuleRegistrationFailed"@,
        ErrorCode::SysModulesDisabled => "SysModulesDisabled"@,
        ErrorCode::ConfigKeyRestricted => "ConfigKeyRestricted"@,
        ErrorCode::InvalidModuleId => "InvalidModuleId"@,
        ErrorCode::ContextBindingError => "ContextBindingError"@,
    }
}

/// The code with a given wire name.
pub open spec fn code_of_wire(s: Seq<char>) -> Option<ErrorCode> {
    if exists|c: ErrorCode| #[trigger] wire_name(c) == s {
        Some(choose|c: ErrorCode| #[trigger] wire_name(c) == s)
    } else {
        None
    }
}

/// Three features of a wire name that tell all wire names apart.
spec fn wire_key(s: Seq<char>) -> (int, char, char) {
    (s.len() as int, s[0], s[s.len() - 2])
}

spec fn code_key(c: ErrorCode) -> (int, char, char) {
    match c {
        ErrorCode::ConfigNotFound => (16, 'C', 'N'),
        ErrorCode::ConfigInvalid => (14, 'C', 'I'),
        ErrorCode::ACLRuleError => (14, 'A', 'O'),
        ErrorCode::ACLDenied => (10, 'A', 'E'),
        ErrorCode::ModuleNotFound => (16, 'M', 'N'),
        ErrorCode::ModuleDisabled => (15, 'M', 'E'),
        ErrorCode::ModuleTimeout => (14, 'M', 'U'),
        ErrorCode::ModuleLoadError => (17, 'M', 'O'),
        ErrorCode::ModuleExecuteError => (20, 'M', 'O'),
        ErrorCode::ReloadFailed => (13, 'R', 'E'),
        ErrorCode::ExecutionCancelled => (19, 'E', 'E'),
        ErrorCode::SchemaValidationError => (23, 'S', 'O'),
        ErrorCode::SchemaNotFound => (16, 'S', 'N'),
        ErrorCode::SchemaParseError => (18, 'S', 'O'),
        ErrorCode::SchemaCircularRef => (19, 'S', 'E'),
        ErrorCode::SchemaUnionNoMatch => (21, 'S', 'C'),
        ErrorCode::SchemaUnionAmbiguous => (22, 'S', 'U'),
        ErrorCode::SchemaMaxDepthExceeded => (25, 'S', 'E'),
        ErrorCode::CallDepthExceeded => (19, 'C', 'E'),
        ErrorCode::CircularCall => (13, 'C', 'L'),
        ErrorCode::CallFrequencyExceeded => (23, 'C', 'E'),
        ErrorCode::GeneralInvalidInput => (21, 'G', 'U'),
        ErrorCode::GeneralInternalError => (22, 'G', 'O'),
        ErrorCode::GeneralNotImplemented => (23, 'G', 'E'),
        ErrorCode::FuncMissingTypeHint => (22, 'F', 'N'),
        ErrorCode::FuncMissingReturnType => (24, 'F', 'P'),
        ErrorCode::BindingInvalidTarget => (22, 'B', 'E'),
        ErrorCode::BindingModuleNotFound => (24, 'B', 'N'),
        ErrorCode::BindingCallableNotFound => (26, 'B', 'N'),
        ErrorCode::BindingNotCallable => (20, 'B', 'L'),
        ErrorCode::BindingSchemaMissing => (22, 'B', 'N'),
        ErrorCode::BindingSchemaInferenceFailed => (31, 'B', 'E'),
        ErrorCode::BindingSchemaModeConflict => (28, 'B', 'C'),
        ErrorCode::BindingStrictSchemaIncompatible => (34, 'B', 'L'),
        ErrorCode::BindingFileInvalid => (20, 'B', 'I'),
        ErrorCode::CircularDependency => (19, 'C', 'C'),
        ErrorCode::MiddlewareChainError => (22, 'M', 'O'),
        ErrorCode::ApprovalDenied => (15, 'A', 'E'),
        ErrorCode::ApprovalTimeout => (16, 'A', 'U'),
        ErrorCode::ApprovalPending => (16, 'A', 'N'),
        ErrorCode::VersionIncompatible => (20, 'V', 'L'),
        ErrorCode::ErrorCodeCollision => (20, 'E', 'O'),
        ErrorCode::DependencyNotFound => (20, 'D', 'N'),
        ErrorCode::DependencyVersionMismatch => (27, 'D', 'C'),
        ErrorCode::ConfigNamespaceDuplicate => (26, 'C', 'T'),
        ErrorCode::ConfigNamespaceReserved => (25, 'C', 'E'),
        ErrorCode::ConfigEnvPrefixConflict => (26, 'C', 'C'),
        ErrorCode::ConfigMountError => (18, 'C', 'O'),
        ErrorCode::ConfigBindError => (17, 'C', 'O'),
        ErrorCode::ConfigEnvMapConflict => (23, 'C', 'C'),
        ErrorCode::ErrorFormatterDuplicate => (25, 'E', 'T'),
        ErrorCode::PipelineAbort => (14, 'P', 'R'),
        ErrorCode::PipelineConfigInvalid => (23, 'P', 'I'),
        ErrorCode::ConfigurationError => (19, 'C', 'O'),
        ErrorCode::PipelineHandlerNotSupported => (30, 'P', 'E'),
        ErrorCode::PipelineStepInsertionAmbiguous => (33, 'P', 'U'),
        ErrorCode::PipelineStepError => (19, 'P', 'O'),
        ErrorCode::PipelineStepNotFound => (23, 'P', 'N'),
        ErrorCode::PipelineDependencyError => (25, 'P', 'O'),
        ErrorCode::StepNotFound => (14, 'S', 'N'),
        ErrorCode::StepNotRemovable => (18, 'S', 'L'),
        ErrorCode::StepNotReplaceable => (20, 'S', 'L'),
        ErrorCode::StepNameDuplicate => (19, 'S', 'T'),
        ErrorCode::StrategyNotFound => (18, 'S', 'N'),
        ErrorCode::EntryPointNotFound => (21, 'E', 'N'),
        ErrorCode::EntryPointAmbiguous => (21, 'E', 'U'),
        ErrorCode::EntryPointRuntimeUnsupported => (31, 'E', 'E'),
        ErrorCode::NoDiscovererConfigured => (24, 'N', 'E'),
        ErrorCode::TaskLimitExceeded => (19, 'T', 'E'),
        ErrorCode::VersionConstraintInvalid => (26, 'V', 'I'),
        ErrorCode::ModuleIdConflict => (18, 'M', 'C'),
        ErrorCode::InvalidSegment => (15, 'I', 'N'),
        ErrorCode::IdTooLong => (11, 'I', 'N'),
        ErrorCode::CircuitBreakerOpen => (20, 'C', 'E'),
        ErrorCode::ModuleReloadConflict => (22, 'M', 'C'),
        ErrorCode::SysModuleRegistrationFailed => (30, 'S', 'E'),
        ErrorCode::SysModulesDisabled => (20, 'S', 'E'),
        ErrorCode::ConfigKeyRestricted => (21, 'C', 'E'),
        ErrorCode::InvalidModuleId => (17, 'I', 'I'),
        ErrorCode::ContextBindingError => (21, 'C', 'O'),
    }
}

proof fn lemma_wire_key(c: ErrorCode)
    ensures
        wire_key(wire_name(c)) == code_key(c),
{
    match c {
        ErrorCode::ConfigNotFound => {
            reveal_strlit("CONFIG_NOT_FOUND");
        },
        ErrorCode::ConfigInvalid => {
            reveal_strlit("CONFIG_INVALID");
        },
        ErrorCode::ACLRuleError => {
            reveal_strlit("ACL_RULE_ERROR");
        },
        ErrorCode::ACLDenied => {
            reveal_strlit("ACL_DENIED");
        },
        ErrorCode::ModuleNotFound => {
            reveal_strlit("MODULE_NOT_FOUND");
        },
        ErrorCode::ModuleDisabled => {
            reveal_strlit("MODULE_DISABLED");
        },
        ErrorCode::ModuleTimeout => {
            reveal_strlit("MODULE_TIMEOUT");
        },
        ErrorCode::ModuleLoadError => {
            reveal_strlit("MODULE_LOAD_ERROR");
        },
        ErrorCode::ModuleExecuteError => {
            reveal_strlit("MODULE_EXECUTE_ERROR");
        },
        ErrorCode::ReloadFailed => {
            reveal_strlit("RELOAD_FAILED");
        },
        ErrorCode::ExecutionCancelled => {
            reveal_strlit("EXECUTION_CANCELLED");
        },
        ErrorCode::SchemaValidationError => {
            reveal_strlit("SCHEMA_VALIDATION_ERROR");
        },
        ErrorCode::SchemaNotFound => {
            reveal_strlit("SCHEMA_NOT_FOUND");
        },
        ErrorCode::SchemaParseError => {
            reveal_strlit("SCHEMA_PARSE_ERROR");
        },
        ErrorCode::SchemaCircularRef => {
            reveal_strlit("SCHEMA_CIRCULAR_REF");
        },
        ErrorCode::SchemaUnionNoMatch => {
            reveal_strlit("SCHEMA_UNION_NO_MATCH");
        },
        ErrorCode::SchemaUnionAmbiguous => {
            reveal_strlit("SCHEMA_UNION_AMBIGUOUS");
        },
        ErrorCode::SchemaMaxDepthExceeded => {
            reveal_strlit("SCHEMA_MAX_DEPTH_EXCEEDED");
        },
        ErrorCode::CallDepthExceeded => {
            reveal_strlit("CALL_DEPTH_EXCEEDED");
        },
        ErrorCode::CircularCall => {
            reveal_strlit("CIRCULAR_CALL");
        },
        ErrorCode::CallFrequencyExceeded => {
            reveal_strlit("CALL_FREQUENCY_EXCEEDED");
        },
        ErrorCode::GeneralInvalidInput => {
            reveal_strlit("GENERAL_INVALID_INPUT");
        },
        ErrorCode::GeneralInternalError => {
            reveal_strlit("GENERAL_INTERNAL_ERROR");
        },
        ErrorCode::GeneralNotImplemented => {
            reveal_strlit("GENERAL_NOT_IMPLEMENTED");
        },
        ErrorCode::FuncMissingTypeHint => {
            reveal_strlit("FUNC_MISSING_TYPE_HINT");
        },
        ErrorCode::FuncMissingReturnType => {
            reveal_strlit("FUNC_MISSING_RETURN_TYPE");
        },
        ErrorCode::BindingInvalidTarget => {
            reveal_strlit("BINDING_INVALID_TARGET");
        },
        ErrorCode::BindingModuleNotFound => {
            reveal_strlit("BINDING_MODULE_NOT_FOUND");
        },
        ErrorCode::BindingCallableNotFound => {
            reveal_strlit("BINDING_CALLABLE_NOT_FOUND");
        },
        ErrorCode::BindingNotCallable => {
            reveal_strlit("BINDING_NOT_CALLABLE");
        },
        ErrorCode::BindingSchemaMissing => {
            reveal_strlit("BINDING_SCHEMA_MISSING");
        },
        ErrorCode::BindingSchemaInferenceFailed => {
            reveal_strlit("BINDING_SCHEMA_INFERENCE_FAILED");
        },
        ErrorCode::BindingSchemaModeConflict => {
            reveal_strlit("BINDING_SCHEMA_MODE_CONFLICT");
        },
        ErrorCode::BindingStrictSchemaIncompatible => {
            reveal_strlit("BINDING_STRICT_SCHEMA_INCOMPATIBLE");
        },
        ErrorCode::BindingFileInvalid => {
            reveal_strlit("BINDING_FILE_INVALID");
        },
        ErrorCode::CircularDependency => {
            reveal_strlit("CIRCULAR_DEPENDENCY");
        },
        ErrorCode::MiddlewareChainError => {
            reveal_strlit("MIDDLEWARE_CHAIN_ERROR");
        },
        ErrorCode::ApprovalDenied => {
            reveal_strlit("APPROVAL_DENIED");
        },
        ErrorCode::ApprovalTimeout => {
            reveal_strlit("APPROVAL_TIMEOUT");
        },
        ErrorCode::ApprovalPending => {
            reveal_strlit("APPROVAL_PENDING");
        },
        ErrorCode::VersionIncompatible => {
            reveal_strlit("VERSION_INCOMPATIBLE");
        },
        ErrorCode::ErrorCodeCollision => {
            reveal_strlit("ERROR_CODE_COLLISION");
        },
        ErrorCode::DependencyNotFound => {
            reveal_strlit("DEPENDENCY_NOT_FOUND");
        },
        ErrorCode::DependencyVersionMismatch => {
            reveal_strlit("DEPENDENCY_VERSION_MISMATCH");
        },
        ErrorCode::ConfigNamespaceDuplicate => {
            reveal_strlit("CONFIG_NAMESPACE_DUPLICATE");
        },
        ErrorCode::ConfigNamespaceReserved => {
            reveal_strlit("CONFIG_NAMESPACE_RESERVED");
        },
        ErrorCode::ConfigEnvPrefixConflict => {
            reveal_strlit("CONFIG_ENV_PREFIX_CONFLICT");
        },
        ErrorCode::ConfigMountError => {
            reveal_strlit("CONFIG_MOUNT_ERROR");
        },
        ErrorCode::ConfigBindError => {
            reveal_strlit("CONFIG_BIND_ERROR");
        },
        ErrorCode::ConfigEnvMapConflict => {
            reveal_strlit("CONFIG_ENV_MAP_CONFLICT");
        },
        ErrorCode::ErrorFormatterDuplicate => {
            reveal_strlit("ERROR_FORMATTER_DUPLICATE");
        },
        ErrorCode::PipelineAbort => {
            reveal_strlit("PIPELINE_ABORT");
        },
        ErrorCode::PipelineConfigInvalid => {
            reveal_strlit("PIPELINE_CONFIG_INVALID");
        },
        ErrorCode::ConfigurationError => {
            reveal_strlit("CONFIGURATION_ERROR");
        },
        ErrorCode::PipelineHandlerNotSupported => {
            reveal_strlit("PIPELINE_HANDLER_NOT_SUPPORTED");
        },
        ErrorCode::PipelineStepInsertionAmbiguous => {
            reveal_strlit("PIPELINE_STEP_INSERTION_AMBIGUOUS");
        },
        ErrorCode::PipelineStepError => {
            reveal_strlit("PIPELINE_STEP_ERROR");
        },
        ErrorCode::PipelineStepNotFound => {
            reveal_strlit("PIPELINE_STEP_NOT_FOUND");
        },
        ErrorCode::PipelineDependencyError => {
            reveal_strlit("PIPELINE_DEPENDENCY_ERROR");
        },
        ErrorCode::StepNotFound => {
            reveal_strlit("STEP_NOT_FOUND");
        },
        ErrorCode::StepNotRemovable => {
            reveal_strlit("STEP_NOT_REMOVABLE");
        },
        ErrorCode::StepNotReplaceable => {
            reveal_strlit("STEP_NOT_REPLACEABLE");
        },
        ErrorCode::StepNameDuplicate => {
            reveal_strlit("STEP_NAME_DUPLICATE");
        },
        ErrorCode::StrategyNotFound => {
            reveal_strlit("STRATEGY_NOT_FOUND");
        },
        ErrorCode::EntryPointNotFound => {
            reveal_strlit("ENTRY_POINT_NOT_FOUND");
        },
        ErrorCode::EntryPointAmbiguous => {
            reveal_strlit("ENTRY_POINT_AMBIGUOUS");
        },
        ErrorCode::EntryPointRuntimeUnsupported => {
            reveal_strlit("ENTRY_POINT_RUNTIME_UNSUPPORTED");
        },
        ErrorCode::NoDiscovererConfigured => {
            reveal_strlit("NO_DISCOVERER_CONFIGURED");
        },
        ErrorCode::TaskLimitExceeded => {
            reveal_strlit("TASK_LIMIT_EXCEEDED");
        },
        ErrorCode::VersionConstraintInvalid => {
            reveal_strlit("VERSION_CONSTRAINT_INVALID");
        },
        ErrorCode::ModuleIdConflict => {
            reveal_strlit("MODULE_ID_CONFLICT");
        },
        ErrorCode::InvalidSegment => {
            reveal_strlit("INVALID_SEGMENT");
        },
        ErrorCode::IdTooLong => {
            reveal_strlit("ID_TOO_LONG");
        },
        ErrorCode::CircuitBreakerOpen => {
            reveal_strlit("CIRCUIT_BREAKER_OPEN");
        },
        ErrorCode::ModuleReloadConflict => {
            reveal_strlit("MODULE_RELOAD_CONFLICT");
        },
        ErrorCode::SysModuleRegistrationFailed => {
            reveal_strlit("SYS_MODULE_REGISTRATION_FAILED");
        },
        ErrorCode::SysModulesDisabled => {
            reveal_strlit("SYS_MODULES_DISABLED");
        },
        ErrorCode::ConfigKeyRestricted => {
            reveal_strlit("CONFIG_KEY_RESTRICTED");
        },
        ErrorCode::InvalidModuleId => {
            reveal_strlit("INVALID_MODULE_ID");
        },
        ErrorCode::ContextBindingError => {
            reveal_strlit("CONTEXT_BINDING_ERROR");
        },
    }
}

/// No two codes share a wire name.
pub proof fn wire_names_are_distinct(a: ErrorCode, b: ErrorCode)
    requires
        wire_name(a) == wire_name(b),
    ensures
        a == b,
{
    lemma_wire_key(a);
    lemma_wire_key(b);
}

/// Reading a wire name gives back the code that wrote it.
pub proof fn wire_name_round_trip(c: ErrorCode)
    ensures
        code_of_wire(wire_name(c)) == Some(c),
{
    let d = choose|d: ErrorCode| #[trigger] wire_name(d) == wire_name(c);
    wire_names_are_distinct(c, d);
}

impl ErrorCode {
    /// The wire name of this code.
    pub fn wire_str(&self) -> (r: &'static str)
        ensures
            r@ == wire_name(*self),
    {
        match self {
            ErrorCode::ConfigNotFound => "CONFIG_NOT_FOUND",
            ErrorCode::ConfigInvalid => "CONFIG_INVALID",
            ErrorCode::ACLRuleError => "ACL_RULE_ERROR",
            ErrorCode::ACLDenied => "ACL_DENIED",
            ErrorCode::ModuleNotFound => "MODULE_NOT_FOUND",
            ErrorCode::ModuleDisabled => "MODULE_DISABLED",
            ErrorCode::ModuleTimeout => "MODULE_TIMEOUT",
            ErrorCode::ModuleLoadError => "MODULE_LOAD_ERROR",
            ErrorCode::ModuleExecuteError => "MODULE_EXECUTE_ERROR",
            ErrorCode::ReloadFailed => "RELOAD_FAILED",
            ErrorCode::ExecutionCancelled => "EXECUTION_CANCELLED",
            ErrorCode::SchemaValidationError => "SCHEMA_VALIDATION_ERROR",
            ErrorCode::SchemaNotFound => "SCHEMA_NOT_FOUND",
            ErrorCode::SchemaParseError => "SCHEMA_PARSE_ERROR",
            ErrorCode::SchemaCircularRef => "SCHEMA_CIRCULAR_REF",
            ErrorCode::SchemaUnionNoMatch => "SCHEMA_UNION_NO_MATCH",
            ErrorCode::SchemaUnionAmbiguous => "SCHEMA_UNION_AMBIGUOUS",
            ErrorCode::SchemaMaxDepthExceeded => "SCHEMA_MAX_DEPTH_EXCEEDED",
            ErrorCode::CallDepthExceeded => "CALL_DEPTH_EXCEEDED",
            ErrorCode::CircularCall => "CIRCULAR_CALL",
            ErrorCode::CallFrequencyExceeded => "CALL_FREQUENCY_EXCEEDED",
            ErrorCode::GeneralInvalidInput => "GENERAL_INVALID_INPUT",
            ErrorCode::GeneralInternalError => "GENERAL_INTERNAL_ERROR",
            ErrorCode::GeneralNotImplemented => "GENERAL_NOT_IMPLEMENTED",
            ErrorCode::FuncMissingTypeHint => "FUNC_MISSING_TYPE_HINT",
            ErrorCode::FuncMissingReturnType => "FUNC_MISSING_RETURN_TYPE",
            ErrorCode::BindingInvalidTarget => "BINDING_INVALID_TARGET",
            ErrorCode::BindingModuleNotFound => "BINDING_MODULE_NOT_FOUND",
            ErrorCode::BindingCallableNotFound => "BINDING_CALLABLE_NOT_FOUND",
            ErrorCode::BindingNotCallable => "BINDING_NOT_CALLABLE",
            ErrorCode::BindingSchemaMissing => "BINDING_SCHEMA_MISSING",
            ErrorCode::BindingSchemaInferenceFailed => "BINDING_SCHEMA_INFERENCE_FAILED",
            ErrorCode::BindingSchemaModeConflict => "BINDING_SCHEMA_MODE_CONFLICT",
            ErrorCode::BindingStrictSchemaIncompatible => "BINDING_STRICT_SCHEMA_INCOMPATIBLE",
            ErrorCode::BindingFileInvalid => "BINDING_FILE_INVALID",
            ErrorCode::CircularDependency => "CIRCULAR_DEPENDENCY",
            ErrorCode::MiddlewareChainError => "MIDDLEWARE_CHAIN_ERROR",
            ErrorCode::ApprovalDenied => "APPROVAL_DENIED",
            ErrorCode::ApprovalTimeout => "APPROVAL_TIMEOUT",
            ErrorCode::ApprovalPending => "APPROVAL_PENDING",
            ErrorCode::VersionIncompatible => "VERSION_INCOMPATIBLE",
            ErrorCode::ErrorCodeCollision => "ERROR_CODE_COLLISION",
            ErrorCode::DependencyNotFound => "DEPENDENCY_NOT_FOUND",
            ErrorCode::DependencyVersionMismatch => "DEPENDENCY_VERSION_MISMATCH",
            ErrorCode::ConfigNamespaceDuplicate => "CONFIG_NAMESPACE_DUPLICATE",
            ErrorCode::ConfigNamespaceReserved => "CONFIG_NAMESPACE_RESERVED",
            ErrorCode::ConfigEnvPrefixConflict => "CONFIG_ENV_PREFIX_CONFLICT",
            ErrorCode::ConfigMountError => "CONFIG_MOUNT_ERROR",
            ErrorCode::ConfigBindError => "CONFIG_BIND_ERROR",
            ErrorCode::ConfigEnvMapConflict => "CONFIG_ENV_MAP_CONFLICT",
            ErrorCode::ErrorFormatterDuplicate => "ERROR_FORMATTER_DUPLICATE",
            ErrorCode::PipelineAbort => "PIPELINE_ABORT",
            ErrorCode::PipelineConfigInvalid => "PIPELINE_CONFIG_INVALID",
            ErrorCode::ConfigurationError => "CONFIGURATION_ERROR",
            ErrorCode::PipelineHandlerNotSupported => "PIPELINE_HANDLER_NOT_SUPPORTED",
            ErrorCode::PipelineStepInsertionAmbiguous => "PIPELINE_STEP_INSERTION_AMBIGUOUS",
            ErrorCode::PipelineStepError => "PIPELINE_STEP_ERROR",
            ErrorCode::PipelineStepNotFound => "PIPELINE_STEP_NOT_FOUND",
            ErrorCode::PipelineDependencyError => "PIPELINE_DEPENDENCY_ERROR",
            ErrorCode::StepNotFound => "STEP_NOT_FOUND",
            ErrorCode::StepNotRemovable => "STEP_NOT_REMOVABLE",
            ErrorCode::StepNotReplaceable => "STEP_NOT_REPLACEABLE",
            ErrorCode::StepNameDuplicate => "STEP_NAME_DUPLICATE",
            ErrorCode::StrategyNotFound => "STRATEGY_NOT_FOUND",
            ErrorCode::EntryPointNotFound => "ENTRY_POINT_NOT_FOUND",
            ErrorCode::EntryPointAmbiguous => "ENTRY_POINT_AMBIGUOUS",
            ErrorCode::EntryPointRuntimeUnsupported => "ENTRY_POINT_RUNTIME_UNSUPPORTED",
            ErrorCode::NoDiscovererConfigured => "NO_DISCOVERER_CONFIGURED",
            ErrorCode::TaskLimitExceeded => "TASK_LIMIT_EXCEEDED",
            ErrorCode::VersionConstraintInvalid => "VERSION_CONSTRAINT_INVALID",
            ErrorCode::ModuleIdConflict => "MODULE_ID_CONFLICT",
            ErrorCode::InvalidSegment => "INVALID_SEGMENT",
            ErrorCode::IdTooLong => "ID_TOO_LONG",
            ErrorCode::CircuitBreakerOpen => "CIRCUIT_BREAKER_OPEN",
            ErrorCode::ModuleReloadConflict => "MODULE_RELOAD_CONFLICT",
            ErrorCode::SysModuleRegistrationFailed => "SYS_MODULE_REGISTRATION_FAILED",
            ErrorCode::SysModulesDisabled => "SYS_MODULES_DISABLED",
            ErrorCode::ConfigKeyRestricted => "CONFIG_KEY_RESTRICTED",
            ErrorCode::InvalidModuleId => "INVALID_MODULE_ID",
            ErrorCode::ContextBindingError => "CONTEXT_BINDING_ERROR",
        }
    }

    /// The name of this code as it is spelled in the source.
    pub fn name(&self) -> (r: &'static str)
        ensures
            r@ == code_name(*self),
    {
        match self {
            ErrorCode::ConfigNotFound => "ConfigNotFound",
            ErrorCode::ConfigInvalid => "ConfigInvalid",
            ErrorCode::ACLRuleError => "ACLRuleError",
            ErrorCode::ACLDenied => "ACLDenied",
            ErrorCode::ModuleNotFound => "ModuleNotFound",
            ErrorCode::ModuleDisabled => "ModuleDisabled",
            ErrorCode::ModuleTimeout => "ModuleTimeout",
            ErrorCode::ModuleLoadError => "ModuleLoadError",
            ErrorCode::ModuleExecuteError => "ModuleExecuteError",
            ErrorCode::ReloadFailed => "ReloadFailed",
            ErrorCode::ExecutionCancelled => "ExecutionCancelled",
            ErrorCode::SchemaValidationError => "SchemaValidationError",
            ErrorCode::SchemaNotFound => "SchemaNotFound",
            ErrorCode::SchemaParseError => "SchemaParseError",
            ErrorCode::SchemaCircularRef => "SchemaCircularRef",
            ErrorCode::SchemaUnionNoMatch => "SchemaUnionNoMatch",
            ErrorCode::SchemaUnionAmbiguous => "SchemaUnionAmbiguous",
            ErrorCode::SchemaMaxDepthExceeded => "SchemaMaxDepthExceeded",
            ErrorCode::CallDepthExceeded => "CallDepthExceeded",
            ErrorCode::CircularCall => "CircularCall",
            ErrorCode::CallFrequencyExceeded => "CallFrequencyExceeded",
            ErrorCode::GeneralInvalidInput => "GeneralInvalidInput",
            ErrorCode::GeneralInternalError => "GeneralInternalError",
            ErrorCode::GeneralNotImplemented => "GeneralNotImplemented",
            ErrorCode::FuncMissingTypeHint => "FuncMissingTypeHint",
            ErrorCode::FuncMissingReturnType => "FuncMissingReturnType",
            ErrorCode::BindingInvalidTarget => "BindingInvalidTarget",
            ErrorCode::BindingModuleNotFound => "BindingModuleNotFound",
            ErrorCode::BindingCallableNotFound => "BindingCallableNotFound",
            ErrorCode::BindingNotCallable => "BindingNotCallable",
            ErrorCode::BindingSchemaMissing => "BindingSchemaMissing",
            ErrorCode::BindingSchemaInferenceFailed => "BindingSchemaInferenceFailed",
            ErrorCode::BindingSchemaModeConflict => "BindingSchemaModeConflict",
            ErrorCode::BindingStrictSchemaIncompatible => "BindingStrictSchemaIncompatible",
            ErrorCode::BindingFileInvalid => "BindingFileInvalid",
            ErrorCode::CircularDependency => "CircularDependency",
            ErrorCode::MiddlewareChainError => "MiddlewareChainError",
            ErrorCode::ApprovalDenied => "ApprovalDenied",
            ErrorCode::ApprovalTimeout => "ApprovalTimeout",
            ErrorCode::ApprovalPending => "ApprovalPending",
            ErrorCode::VersionIncompatible => "VersionIncompatible",
            ErrorCode::ErrorCodeCollision => "ErrorCodeCollision",
            ErrorCode::DependencyNotFound => "DependencyNotFound",
            ErrorCode::DependencyVersionMismatch => "DependencyVersionMismatch",
            ErrorCode::ConfigNamespaceDuplicate => "ConfigNamespaceDuplicate",
            ErrorCode::ConfigNamespaceReserved => "ConfigNamespaceReserved",
            ErrorCode::ConfigEnvPrefixConflict => "ConfigEnvPrefixConflict",
            ErrorCode::ConfigMountError => "ConfigMountError",
            ErrorCode::ConfigBindError => "ConfigBindError",
            ErrorCode::ConfigEnvMapConflict => "ConfigEnvMapConflict",
            ErrorCode::ErrorFormatterDuplicate => "ErrorFormatterDuplicate",
            ErrorCode::PipelineAbort => "PipelineAbort",
            ErrorCode::PipelineConfigInvalid => "PipelineConfigInvalid",
            ErrorCode::ConfigurationError => "ConfigurationError",
            ErrorCode::PipelineHandlerNotSupported => "PipelineHandlerNotSupported",
            ErrorCode::PipelineStepInsertionAmbiguous => "PipelineStepInsertionAmbiguous",
            ErrorCode::PipelineStepError => "PipelineStepError",
            ErrorCode::PipelineStepNotFound => "PipelineStepNotFound",
            ErrorCode::PipelineDependencyError => "PipelineDependencyError",
            ErrorCode::StepNotFound => "StepNotFound",
            ErrorCode::StepNotRemovable => "StepNotRemovable",
            ErrorCode::StepNotReplaceable => "StepNotReplaceable",
            ErrorCode::StepNameDuplicate => "StepNameDuplicate",
            ErrorCode::StrategyNotFound => "StrategyNotFound",
            ErrorCode::EntryPointNotFound => "EntryPointNotFound",
            ErrorCode::EntryPointAmbiguous => "EntryPointAmbiguous",
            ErrorCode::EntryPointRuntimeUnsupported => "EntryPointRuntimeUnsupported",
            ErrorCode::NoDiscovererConfigured => "NoDiscovererConfigured",
            ErrorCode::TaskLimitExceeded => "TaskLimitExceeded",
            ErrorCode::VersionConstraintInvalid => "VersionConstraintInvalid",
            ErrorCode::ModuleIdConflict => "ModuleIdConflict",
            ErrorCode::InvalidSegment => "InvalidSegment",
            ErrorCode::IdTooLong => "IdTooLong",
            ErrorCode::CircuitBreakerOpen => "CircuitBreakerOpen",
            ErrorCode::ModuleReloadConflict => "ModuleReloadConflict",
            ErrorCode::SysModuleRegistrationFailed => "SysModuleRegistrationFailed",
            ErrorCode::SysModulesDisabled => "SysModulesDisabled",
            ErrorCode::ConfigKeyRestricted => "ConfigKeyRestricted",
            ErrorCode::InvalidModuleId => "InvalidModuleId",
            ErrorCode::ContextBindingError => "ContextBindingError",
        }
    }

    /// The code with this wire name, if there is one.
    pub fn from_wire(s: &str) -> (r: Option<ErrorCode>)
        ensures
            r == code_of_wire(s@),
    {
        if str_eq(s, "CONFIG_NOT_FOUND") {
            proof {
                wire_name_round_trip(ErrorCode::ConfigNotFound);
            }
            return Some(ErrorCode::ConfigNotFound);
        }
        if str_eq(s, "CONFIG_INVALID") {
            proof {
                wire_name_round_trip(ErrorCode::ConfigInvalid);
            }
            return Some(ErrorCode::ConfigInvalid);
        }
        if str_eq(s, "ACL_RULE_ERROR") {
            proof {
                wire_name_round_trip(ErrorCode::ACLRuleError);
            }
            return Some(ErrorCode::ACLRuleError);
        }
        if str_eq(s, "ACL_DENIED") {
            proof {
                wire_name_round_trip(ErrorCode::ACLDenied);
            }
            return Some(ErrorCode::ACLDenied);
        }
        if str_eq(s, "MODULE_NOT_FOUND") {
            proof {
                wire_name_round_trip(ErrorCode::ModuleNotFound);
            }
            return Some(ErrorCode::ModuleNotFound);
        }
        if str_eq(s, "MODULE_DISABLED") {
            proof {
                wire_name_round_trip(ErrorCode::ModuleDisabled);
            }
            return Some(ErrorCode::ModuleDisabled);
        }
        if str_eq(s, "MODULE_TIMEOUT") {
            proof {
                wire_name_round_trip(ErrorCode::ModuleTimeout);
            }
            return Some(ErrorCode::ModuleTimeout);
        }
        if str_eq(s, "MODULE_LOAD_ERROR") {
            proof {
                wire_name_round_trip(ErrorCode::ModuleLoadError);
            }
            return Some(ErrorCode::ModuleLoadError);
        }
        if str_eq(s, "MODULE_EXECUTE_ERROR") {
            proof {
                wire_name_round_trip(ErrorCode::ModuleExecuteError);
            }
            return Some(ErrorCode::ModuleExecuteError);
        }
        if str_eq(s, "RELOAD_FAILED") {
            proof {
                wire_name_round_trip(ErrorCode::ReloadFailed);
            }
            return Some(ErrorCode::ReloadFailed);
        }
        if str_eq(s, "EXECUTION_CANCELLED") {
            proof {
                wire_name_round_trip(ErrorCode::ExecutionCancelled);
            }
            return Some(ErrorCode::ExecutionCancelled);
        }
        if str_eq(s, "SCHEMA_VALIDATION_ERROR") {
            proof {
                wire_name_round_trip(ErrorCode::SchemaValidationError);
            }
            return Some(ErrorCode::SchemaValidationError);
        }
        if str_eq(s, "SCHEMA_NOT_FOUND") {
            proof {
                wire_name_round_trip(ErrorCode::SchemaNotFound);
            }
            return Some(ErrorCode::SchemaNotFound);
        }
        if str_eq(s, "SCHEMA_PARSE_ERROR") {
            proof {
                wire_name_round_trip(ErrorCode::SchemaParseError);
            }
            return Some(ErrorCode::SchemaParseError);
        }
        if str_eq(s, "SCHEMA_CIRCULAR_REF") {
            proof {
                wire_name_round_trip(ErrorCode::SchemaCircularRef);
            }
            return Some(ErrorCode::SchemaCircularRef);
        }
        if str_eq(s, "SCHEMA_UNION_NO_MATCH") {
            proof {
                wire_name_round_trip(ErrorCode::SchemaUnionNoMatch);
            }
            return Some(ErrorCode::SchemaUnionNoMatch);
        }
        if str_eq(s, "SCHEMA_UNION_AMBIGUOUS") {
            proof {
                wire_name_round_trip(ErrorCode::SchemaUnionAmbiguous);
            }
            return Some(ErrorCode::SchemaUnionAmbiguous);
        }
        if str_eq(s, "SCHEMA_MAX_DEPTH_EXCEEDED") {
            proof {
                wire_name_round_trip(ErrorCode::SchemaMaxDepthExceeded);
            }
            return Some(ErrorCode::SchemaMaxDepthExceeded);
        }
        if str_eq(s, "CALL_DEPTH_EXCEEDED") {
            proof {
                wire_name_round_trip(ErrorCode::CallDepthExceeded);
            }
            return Some(ErrorCode::CallDepthExceeded);
        }
        if str_eq(s, "CIRCULAR_CALL") {
            proof {
                wire_name_round_trip(ErrorCode::CircularCall);
            }
            return Some(ErrorCode::CircularCall);
        }
        if str_eq(s, "CALL_FREQUENCY_EXCEEDED") {
            proof {
                wire_name_round_trip(ErrorCode::CallFrequencyExceeded);
            }
            return Some(ErrorCode::CallFrequencyExceeded);
        }
        if str_eq(s, "GENERAL_INVALID_INPUT") {
            proof {
                wire_name_round_trip(ErrorCode::GeneralInvalidInput);
            }
            return Some(ErrorCode::GeneralInvalidInput);
        }
        if str_eq(s, "GENERAL_INTERNAL_ERROR") {
            proof {
                wire_name_round_trip(ErrorCode::GeneralInternalError);
            }
            return Some(ErrorCode::GeneralInternalError);
        }
        if str_eq(s, "GENERAL_NOT_IMPLEMENTED") {
            proof {
                wire_name_round_trip(ErrorCode::GeneralNotImplemented);
            }
            return Some(ErrorCode::GeneralNotImplemented);
        }
        if str_eq(s, "FUNC_MISSING_TYPE_HINT") {
            proof {
                wire_name_round_trip(ErrorCode::FuncMissingTypeHint);
            }
            return Some(ErrorCode::FuncMissingTypeHint);
        }
        if str_eq(s, "FUNC_MISSING_RETURN_TYPE") {
            proof {
                wire_name_round_trip(ErrorCode::FuncMissingReturnType);
            }
            return Some(ErrorCode::FuncMissingReturnType);
        }
        if str_eq(s, "BINDING_INVALID_TARGET") {
            proof {
                wire_name_round_trip(ErrorCode::BindingInvalidTarget);
            }
            return Some(ErrorCode::BindingInvalidTarget);
        }
        if str_eq(s, "BINDING_MODULE_NOT_FOUND") {
            proof {
                wire_name_round_trip(ErrorCode::BindingModuleNotFound);
            }
            return Some(ErrorCode::BindingModuleNotFound);
        }
        if str_eq(s, "BINDING_CALLABLE_NOT_FOUND") {
            proof {
                wire_name_round_trip(ErrorCode::BindingCallableNotFound);
            }
            return Some(ErrorCode::BindingCallableNotFound);
        }
        if str_eq(s, "BINDING_NOT_CALLABLE") {
            proof {
                wire_name_round_trip(ErrorCode::BindingNotCallable);
            }
            return Some(ErrorCode::BindingNotCallable);
        }
        if str_eq(s, "BINDING_SCHEMA_MISSING") {
            proof {
                wire_name_round_trip(ErrorCode::BindingSchemaMissing);
            }
            return Some(ErrorCode::BindingSchemaMissing);
        }
        if str_eq(s, "BINDING_SCHEMA_INFERENCE_FAILED") {
            proof {
                wire_name_round_trip(ErrorCode::BindingSchemaInferenceFailed);
            }
            return Some(ErrorCode::BindingSchemaInferenceFailed);
        }
        if str_eq(s, "BINDING_SCHEMA_MODE_CONFLICT") {
            proof {
                wire_name_round_trip(ErrorCode::BindingSchemaModeConflict);
            }
            return Some(ErrorCode::BindingSchemaModeConflict);
        }
        if str_eq(s, "BINDING_STRICT_SCHEMA_INCOMPATIBLE") {
            proof {
                wire_name_round_trip(ErrorCode::BindingStrictSchemaIncompatible);
            }
            return Some(ErrorCode::BindingStrictSchemaIncompatible);
        }
        if str_eq(s, "BINDING_FILE_INVALID") {
            proof {
                wire_name_round_trip(ErrorCode::BindingFileInvalid);
            }
            return Some(ErrorCode::BindingFileInvalid);
        }
        if str_eq(s, "CIRCULAR_DEPENDENCY") {
            proof {
                wire_name_round_trip(ErrorCode::CircularDependency);
            }
            return Some(ErrorCode::CircularDependency);
        }
        if str_eq(s, "MIDDLEWARE_CHAIN_ERROR") {
            proof {
                wire_name_round_trip(ErrorCode::MiddlewareChainError);
            }
            return Some(ErrorCode::MiddlewareChainError);
        }
        if str_eq(s, "APPROVAL_DENIED") {
            proof {
                wire_name_round_trip(ErrorCode::ApprovalDenied);
            }
            return Some(ErrorCode::ApprovalDenied);
        }
        if str_eq(s, "APPROVAL_TIMEOUT") {
            proof {
                wire_name_round_trip(ErrorCode::ApprovalTimeout);
            }
            return Some(ErrorCode::ApprovalTimeout);
        }
        if str_eq(s, "APPROVAL_PENDING") {
            proof {
                wire_name_round_trip(ErrorCode::ApprovalPending);
            }
            return Some(ErrorCode::ApprovalPending);
        }
        if str_eq(s, "VERSION_INCOMPATIBLE") {
            proof {
                wire_name_round_trip(ErrorCode::VersionIncompatible);
            }
            return Some(ErrorCode::VersionIncompatible);
        }
        if str_eq(s, "ERROR_CODE_COLLISION") {
            proof {
                wire_name_round_trip(ErrorCode::ErrorCodeCollision);
            }
            return Some(ErrorCode::ErrorCodeCollision);
        }
        if str_eq(s, "DEPENDENCY_NOT_FOUND") {
            proof {
                wire_name_round_trip(ErrorCode::DependencyNotFound);
            }
            return Some(ErrorCode::DependencyNotFound);
        }
        if str_eq(s, "DEPENDENCY_VERSION_MISMATCH") {
            proof {
                wire_name_round_trip(ErrorCode::DependencyVersionMismatch);
            }
            return Some(ErrorCode::DependencyVersionMismatch);
        }
        if str_eq(s, "CONFIG_NAMESPACE_DUPLICATE") {
            proof {
                wire_name_round_trip(ErrorCode::ConfigNamespaceDuplicate);
            }
            return Some(ErrorCode::ConfigNamespaceDuplicate);
        }
        if str_eq(s, "CONFIG_NAMESPACE_RESERVED") {
            proof {
                wire_name_round_trip(ErrorCode::ConfigNamespaceReserved);
            }
            return Some(ErrorCode::ConfigNamespaceReserved);
        }
        if str_eq(s, "CONFIG_ENV_PREFIX_CONFLICT") {
            proof {
                wire_name_round_trip(ErrorCode::ConfigEnvPrefixConflict);
            }
            return Some(ErrorCode::ConfigEnvPrefixConflict);
        }
        if str_eq(s, "CONFIG_MOUNT_ERROR") {
            proof {
                wire_name_round_trip(ErrorCode::ConfigMountError);
            }
            return Some(ErrorCode::ConfigMountError);
        }
        if str_eq(s, "CONFIG_BIND_ERROR") {
            proof {
                wire_name_round_trip(ErrorCode::ConfigBindError);
            }
            return Some(ErrorCode::ConfigBindError);
        }
        if str_eq(s, "CONFIG_ENV_MAP_CONFLICT") {
            proof {
                wire_name_round_trip(ErrorCode::ConfigEnvMapConflict);
            }
            return Some(ErrorCode::ConfigEnvMapConflict);
        }
        if str_eq(s, "ERROR_FORMATTER_DUPLICATE") {
            proof {
                wire_name_round_trip(ErrorCode::ErrorFormatterDuplicate);
            }
            return Some(ErrorCode::ErrorFormatterDuplicate);
        }
        if str_eq(s, "PIPELINE_ABORT") {
            proof {
                wire_name_round_trip(ErrorCode::PipelineAbort);
            }
            return Some(ErrorCode::PipelineAbort);
        }
        if str_eq(s, "PIPELINE_CONFIG_INVALID") {
            proof {
                wire_name_round_trip(ErrorCode::PipelineConfigInvalid);
            }
            return Some(ErrorCode::PipelineConfigInvalid);
        }
        if str_eq(s, "CONFIGURATION_ERROR") {
            proof {
                wire_name_round_trip(ErrorCode::ConfigurationError);
            }
            return Some(ErrorCode::ConfigurationError);
        }
        if str_eq(s, "PIPELINE_HANDLER_NOT_SUPPORTED") {
            proof {
                wire_name_round_trip(ErrorCode::PipelineHandlerNotSupported);
            }
            return Some(ErrorCode::PipelineHandlerNotSupported);
        }
        if str_eq(s, "PIPELINE_STEP_INSERTION_AMBIGUOUS") {
            proof {
                wire_name_round_trip(ErrorCode::PipelineStepInsertionAmbiguous);
            }
            return Some(ErrorCode::PipelineStepInsertionAmbiguous);
        }
        if str_eq(s, "PIPELINE_STEP_ERROR") {
            proof {
                wire_name_round_trip(ErrorCode::PipelineStepError);
            }
            return Some(ErrorCode::PipelineStepError);
        }
        if str_eq(s, "PIPELINE_STEP_NOT_FOUND") {
            proof {
                wire_name_round_trip(ErrorCode::PipelineStepNotFound);
            }
            return Some(ErrorCode::PipelineStepNotFound);
        }
        if str_eq(s, "PIPELINE_DEPENDENCY_ERROR") {
            proof {
                wire_name_round_trip(ErrorCode::PipelineDependencyError);
            }
            return Some(ErrorCode::PipelineDependencyError);
        }
        if str_eq(s, "STEP_NOT_FOUND") {
            proof {
                wire_name_round_trip(ErrorCode::StepNotFound);
            }
            return Some(ErrorCode::StepNotFound);
        }
        if str_eq(s, "STEP_NOT_REMOVABLE") {
            proof {
                wire_name_round_trip(ErrorCode::StepNotRemovable);
            }
            return Some(ErrorCode::StepNotRemovable);
        }
        if str_eq(s, "STEP_NOT_REPLACEABLE") {
            proof {
                wire_name_round_trip(ErrorCode::StepNotReplaceable);
            }
            return Some(ErrorCode::StepNotReplaceable);
        }
        if str_eq(s, "STEP_NAME_DUPLICATE") {
            proof {
                wire_name_round_trip(ErrorCode::StepNameDuplicate);
            }
            return Some(ErrorCode::StepNameDuplicate);
        }
        if str_eq(s, "STRATEGY_NOT_FOUND") {
            proof {
                wire_name_round_trip(ErrorCode::StrategyNotFound);
            }
            return Some(ErrorCode::StrategyNotFound);
        }
        if str_eq(s, "ENTRY_POINT_NOT_FOUND") {
            proof {
                wire_name_round_trip(ErrorCode::EntryPointNotFound);
            }
            return Some(ErrorCode::EntryPointNotFound);
        }
        if str_eq(s, "ENTRY_POINT_AMBIGUOUS") {
            proof {
                wire_name_round_trip(ErrorCode::EntryPointAmbiguous);
            }
            return Some(ErrorCode::EntryPointAmbiguous);
        }
        if str_eq(s, "ENTRY_POINT_RUNTIME_UNSUPPORTED") {
            proof {
                wire_name_round_trip(ErrorCode::EntryPointRuntimeUnsupported);
            }
            return Some(ErrorCode::EntryPointRuntimeUnsupported);
        }
        if str_eq(s, "NO_DISCOVERER_CONFIGURED") {
            proof {
                wire_name_round_trip(ErrorCode::NoDiscovererConfigured);
            }
            return Some(ErrorCode::NoDiscovererConfigured);
        }
        if str_eq(s, "TASK_LIMIT_EXCEEDED") {
            proof {
                wire_name_round_trip(ErrorCode::TaskLimitExceeded);
            }
            return Some(ErrorCode::TaskLimitExceeded);
        }
        if str_eq(s, "VERSION_CONSTRAINT_INVALID") {
            proof {
                wire_name_round_trip(ErrorCode::VersionConstraintInvalid);
            }
            return Some(ErrorCode::VersionConstraintInvalid);
        }
        if str_eq(s, "MODULE_ID_CONFLICT") {
            proof {
                wire_name_round_trip(ErrorCode::ModuleIdConflict);
            }
            return Some(ErrorCode::ModuleIdConflict);
        }
        if str_eq(s, "INVALID_SEGMENT") {
            proof {
                wire_name_round_trip(ErrorCode::InvalidSegment);
            }
            return Some(ErrorCode::InvalidSegment);
        }
        if str_eq(s, "ID_TOO_LONG") {
            proof {
                wire_name_round_trip(ErrorCode::IdTooLong);
            }
            return Some(ErrorCode::IdTooLong);
        }
        if str_eq(s, "CIRCUIT_BREAKER_OPEN") {
            proof {
                wire_name_round_trip(ErrorCode::CircuitBreakerOpen);
            }
            return Some(ErrorCode::CircuitBreakerOpen);
        }
        if str_eq(s, "MODULE_RELOAD_CONFLICT") {
            proof {
                wire_name_round_trip(ErrorCode::ModuleReloadConflict);
            }
            return Some(ErrorCode::ModuleReloadConflict);
        }
        if str_eq(s, "SYS_MODULE_REGISTRATION_FAILED") {
            proof {
                wire_name_round_trip(ErrorCode::SysModuleRegistrationFailed);
            }
            return Some(ErrorCode::SysModuleRegistrationFailed);
        }
        if str_eq(s, "SYS_MODULES_DISABLED") {
            proof {
                wire_name_round_trip(ErrorCode::SysModulesDisabled);
            }
            return Some(ErrorCode::SysModulesDisabled);
        }
        if str_eq(s, "CONFIG_KEY_RESTRICTED") {
            proof {
                wire_name_round_trip(ErrorCode::ConfigKeyRestricted);
            }
            return Some(ErrorCode::ConfigKeyRestricted);
        }
        if str_eq(s, "INVALID_MODULE_ID") {
            proof {
                wire_name_round_trip(ErrorCode::InvalidModuleId);
            }
            return Some(ErrorCode::InvalidModuleId);
        }
        if str_eq(s, "CONTEXT_BINDING_ERROR") {
            proof {
                wire_name_round_trip(ErrorCode::ContextBindingError);
            }
            return Some(ErrorCode::ContextBindingError);
        }
        None
    }
}

/// A small letter as a capital; every other character stays.
pub open spec fn capital(c: char) -> char {
    if 'a' <= c && c <= 'z' {
        (c as int - 32) as char
    } else {
        c
    }
}

/// Whether a text in capitals, but for the underscores in it, spells a name, from
/// a position of each on.
pub open spec fn spells(wire: Seq<char>, i: int, name: Seq<char>, j: int) -> bool
    decreases wire.len() - i,
{
    if i < 0 || i >= wire.len() {
        j == name.len()
    } else if wire[i] == '_' {
        spells(wire, i + 1, name, j)
    } else {
        0 <= j < name.len() && wire[i] == capital(name[j]) && spells(wire, i + 1, name, j + 1)
    }
}

/// On the wire a code is spelled as in its name, in capitals and with underscores
/// between the words.
pub proof fn wire_names_spell_the_names(c: ErrorCode)
    ensures
        spells(wire_name(c), 0, code_name(c), 0),
{
    match c {
        ErrorCode::ConfigNotFound => lemma_spelled_1(c),
        ErrorCode::ConfigInvalid => lemma_spelled_1(c),
        ErrorCode::ACLRuleError => lemma_spelled_1(c),
        ErrorCode::ACLDenied => lemma_spelled_1(c),
        ErrorCode::ModuleNotFound => lemma_spelled_1(c),
        ErrorCode::ModuleDisabled => lemma_spelled_1(c),
        ErrorCode::ModuleTimeout => lemma_spelled_1(c),
        ErrorCode::ModuleLoadError => lemma_spelled_1(c),
        ErrorCode::ModuleExecuteError => lemma_spelled_2(c),
        ErrorCode::ReloadFailed => lemma_spelled_2(c),
        ErrorCode::ExecutionCancelled => lemma_spelled_2(c),
        ErrorCode::SchemaValidationError => lemma_spelled_2(c),
        ErrorCode::SchemaNotFound => lemma_spelled_2(c),
        ErrorCode::SchemaParseError => lemma_spelled_2(c),
        ErrorCode::SchemaCircularRef => lemma_spelled_2(c),
        ErrorCode::SchemaUnionNoMatch => lemma_spelled_2(c),
        ErrorCode::SchemaUnionAmbiguous => lemma_spelled_3(c),
        ErrorCode::SchemaMaxDepthExceeded => lemma_spelled_3(c),
        ErrorCode::CallDepthExceeded => lemma_spelled_3(c),
        ErrorCode::CircularCall => lemma_spelled_3(c),
        ErrorCode::CallFrequencyExceeded => lemma_spelled_3(c),
        ErrorCode::GeneralInvalidInput => lemma_spelled_3(c),
        ErrorCode::GeneralInternalError => lemma_spelled_3(c),
        ErrorCode::GeneralNotImplemented => lemma_spelled_3(c),
        ErrorCode::FuncMissingTypeHint => lemma_spelled_4(c),
        ErrorCode::FuncMissingReturnType => lemma_spelled_4(c),
        ErrorCode::BindingInvalidTarget => lemma_spelled_4(c),
        ErrorCode::BindingModuleNotFound => lemma_spelled_4(c),
        ErrorCode::BindingCallableNotFound => lemma_spelled_4(c),
        ErrorCode::BindingNotCallable => lemma_spelled_4(c),
        ErrorCode::BindingSchemaMissing => lemma_spelled_4(c),
        ErrorCode::BindingSchemaInferenceFailed => lemma_spelled_4(c),
        ErrorCode::BindingSchemaModeConflict => lemma_spelled_5(c),
        ErrorCode::BindingStrictSchemaIncompatible => lemma_spelled_5(c),
        ErrorCode::BindingFileInvalid => lemma_spelled_5(c),
        ErrorCode::CircularDependency => lemma_spelled_5(c),
        ErrorCode::MiddlewareChainError => lemma_spelled_5(c),
        ErrorCode::ApprovalDenied => lemma_spelled_5(c),
        ErrorCode::ApprovalTimeout => lemma_spelled_5(c),
        ErrorCode::ApprovalPending => lemma_spelled_5(c),
        ErrorCode::VersionIncompatible => lemma_spelled_6(c),
        ErrorCode::ErrorCodeCollision => lemma_spelled_6(c),
        ErrorCode::DependencyNotFound => lemma_spelled_6(c),
        ErrorCode::DependencyVersionMismatch => lemma_spelled_6(c),
        ErrorCode::ConfigNamespaceDuplicate => lemma_spelled_6(c),
        ErrorCode::ConfigNamespaceReserved => lemma_spelled_6(c),
        ErrorCode::ConfigEnvPrefixConflict => lemma_spelled_6(c),
        ErrorCode::ConfigMountError => lemma_spelled_6(c),
        ErrorCode::ConfigBindError => lemma_spelled_7(c),
        ErrorCode::ConfigEnvMapConflict => lemma_spelled_7(c),
        ErrorCode::ErrorFormatterDuplicate => lemma_spelled_7(c),
        ErrorCode::PipelineAbort => lemma_spelled_7(c),
        ErrorCode::PipelineConfigInvalid => lemma_spelled_7(c),
        ErrorCode::ConfigurationError => lemma_spelled_7(c),
        ErrorCode::PipelineHandlerNotSupported => lemma_spelled_7(c),
        ErrorCode::PipelineStepInsertionAmbiguous => lemma_spelled_7(c),
        ErrorCode::PipelineStepError => lemma_spelled_8(c),
        ErrorCode::PipelineStepNotFound => lemma_spelled_8(c),
        ErrorCode::PipelineDependencyError => lemma_spelled_8(c),
        ErrorCode::StepNotFound => lemma_spelled_8(c),
        ErrorCode::StepNotRemovable => lemma_spelled_8(c),
        ErrorCode::StepNotReplaceable => lemma_spelled_8(c),
        ErrorCode::StepNameDuplicate => lemma_spelled_8(c),
        ErrorCode::StrategyNotFound => lemma_spelled_8(c),
        ErrorCode::EntryPointNotFound => lemma_spelled_9(c),
        ErrorCode::EntryPointAmbiguous => lemma_spelled_9(c),
        ErrorCode::EntryPointRuntimeUnsupported => lemma_spelled_9(c),
        ErrorCode::NoDiscovererConfigured => lemma_spelled_9(c),
        ErrorCode::TaskLimitExceeded => lemma_spelled_9(c),
        ErrorCode::VersionConstraintInvalid => lemma_spelled_9(c),
        ErrorCode::ModuleIdConflict => lemma_spelled_9(c),
        ErrorCode::InvalidSegment => lemma_spelled_9(c),
        ErrorCode::IdTooLong => lemma_spelled_10(c),
        ErrorCode::CircuitBreakerOpen => lemma_spelled_10(c),
        ErrorCode::ModuleReloadConflict => lemma_spelled_10(c),
        ErrorCode::SysModuleRegistrationFailed => lemma_spelled_10(c),
        ErrorCode::SysModulesDisabled => lemma_spelled_10(c),
        ErrorCode::ConfigKeyRestricted => lemma_spelled_10(c),
        ErrorCode::InvalidModuleId => lemma_spelled_10(c),
        ErrorCode::ContextBindingError => lemma_spelled_10(c),
    }
}

proof fn lemma_spelled_1(c: ErrorCode)
    requires
        c == ErrorCode::ConfigNotFound || c == ErrorCode::ConfigInvalid || c == ErrorCode::ACLRuleError || c == ErrorCode::ACLDenied || c == ErrorCode::ModuleNotFound || c == ErrorCode::ModuleDisabled || c == ErrorCode::ModuleTimeout || c == ErrorCode::ModuleLoadError,
    ensures
        spells(wire_name(c), 0, code_name(c), 0),
{
    reveal_with_fuel(spells, 40);
    match c {
        ErrorCode::ConfigNotFound => {
            reveal_strlit("CONFIG_NOT_FOUND");
            reveal_strlit("ConfigNotFound");
        },
        ErrorCode::ConfigInvalid => {
            reveal_strlit("CONFIG_INVALID");
            reveal_strlit("ConfigInvalid");
        },
        ErrorCode::ACLRuleError => {
            reveal_strlit("ACL_RULE_ERROR");
            reveal_strlit("ACLRuleError");
        },
        ErrorCode::ACLDenied => {
            reveal_strlit("ACL_DENIED");
            reveal_strlit("ACLDenied");
        },
        ErrorCode::ModuleNotFound => {
            reveal_strlit("MODULE_NOT_FOUND");
            reveal_strlit("ModuleNotFound");
        },
        ErrorCode::ModuleDisabled => {
            reveal_strlit("MODULE_DISABLED");
            reveal_strlit("ModuleDisabled");
        },
        ErrorCode::ModuleTimeout => {
            reveal_strlit("MODULE_TIMEOUT");
            reveal_strlit("ModuleTimeout");
        },
        ErrorCode::ModuleLoadError => {
            reveal_strlit("MODULE_LOAD_ERROR");
            reveal_strlit("ModuleLoadError");
        },
        _ => {},
    }
}

proof fn lemma_spelled_2(c: ErrorCode)
    requires
        c == ErrorCode::ModuleExecuteError || c == ErrorCode::ReloadFailed || c == ErrorCode::ExecutionCancelled || c == ErrorCode::SchemaValidationError || c == ErrorCode::SchemaNotFound || c == ErrorCode::SchemaParseError || c == ErrorCode::SchemaCircularRef || c == ErrorCode::SchemaUnionNoMatch,
    ensures
        spells(wire_name(c), 0, code_name(c), 0),
{
    reveal_with_fuel(spells, 40);
    match c {
        ErrorCode::ModuleExecuteError => {
            reveal_strlit("MODULE_EXECUTE_ERROR");
            reveal_strlit("ModuleExecuteError");
        },
        ErrorCode::ReloadFailed => {
            reveal_strlit("RELOAD_FAILED");
            reveal_strlit("ReloadFailed");
        },
        ErrorCode::ExecutionCancelled => {
            reveal_strlit("EXECUTION_CANCELLED");
            reveal_strlit("ExecutionCancelled");
        },
        ErrorCode::SchemaValidationError => {
            reveal_strlit("SCHEMA_VALIDATION_ERROR");
            reveal_strlit("SchemaValidationError");
        },
        ErrorCode::SchemaNotFound => {
            reveal_strlit("SCHEMA_NOT_FOUND");
            reveal_strlit("SchemaNotFound");
        },
        ErrorCode::SchemaParseError => {
            reveal_strlit("SCHEMA_PARSE_ERROR");
            reveal_strlit("SchemaParseError");
        },
        ErrorCode::SchemaCircularRef => {
            reveal_strlit("SCHEMA_CIRCULAR_REF");
            reveal_strlit("SchemaCircularRef");
        },
        ErrorCode::SchemaUnionNoMatch => {
            reveal_strlit("SCHEMA_UNION_NO_MATCH");
            reveal_strlit("SchemaUnionNoMatch");
        },
        _ => {},
    }
}

proof fn lemma_spelled_3(c: ErrorCode)
    requires
        c == ErrorCode::SchemaUnionAmbiguous || c == ErrorCode::SchemaMaxDepthExceeded || c == ErrorCode::CallDepthExceeded || c == ErrorCode::CircularCall || c == ErrorCode::CallFrequencyExceeded || c == ErrorCode::GeneralInvalidInput || c == ErrorCode::GeneralInternalError || c == ErrorCode::GeneralNotImplemented,
    ensures
        spells(wire_name(c), 0, code_name(c), 0),
{
    reveal_with_fuel(spells, 40);
    match c {
        ErrorCode::SchemaUnionAmbiguous => {
            reveal_strlit("SCHEMA_UNION_AMBIGUOUS");
            reveal_strlit("SchemaUnionAmbiguous");
        },
        ErrorCode::SchemaMaxDepthExceeded => {
            reveal_strlit("SCHEMA_MAX_DEPTH_EXCEEDED");
            reveal_strlit("SchemaMaxDepthExceeded");
        },
        ErrorCode::CallDepthExceeded => {
            reveal_strlit("CALL_DEPTH_EXCEEDED");
            reveal_strlit("CallDepthExceeded");
        },
        ErrorCode::CircularCall => {
            reveal_strlit("CIRCULAR_CALL");
            reveal_strlit("CircularCall");
        },
        ErrorCode::CallFrequencyExceeded => {
            reveal_strlit("CALL_FREQUENCY_EXCEEDED");
            reveal_strlit("CallFrequencyExceeded");
        },
        ErrorCode::GeneralInvalidInput => {
            reveal_strlit("GENERAL_INVALID_INPUT");
            reveal_strlit("GeneralInvalidInput");
        },
        ErrorCode::GeneralInternalError => {
            reveal_strlit("GENERAL_INTERNAL_ERROR");
            reveal_strlit("GeneralInternalError");
        },
        ErrorCode::GeneralNotImplemented => {
            reveal_strlit("GENERAL_NOT_IMPLEMENTED");
            reveal_strlit("GeneralNotImplemented");
        },
        _ => {},
    }
}

proof fn lemma_spelled_4(c: ErrorCode)
    requires
        c == ErrorCode::FuncMissingTypeHint || c == ErrorCode::FuncMissingReturnType || c == ErrorCode::BindingInvalidTarget || c == ErrorCode::BindingModuleNotFound || c == ErrorCode::BindingCallableNotFound || c == ErrorCode::BindingNotCallable || c == ErrorCode::BindingSchemaMissing || c == ErrorCode::BindingSchemaInferenceFailed,
    ensures
        spells(wire_name(c), 0, code_name(c), 0),
{
    reveal_with_fuel(spells, 40);
    match c {
        ErrorCode::FuncMissingTypeHint => {
            reveal_strlit("FUNC_MISSING_TYPE_HINT");
            reveal_strlit("FuncMissingTypeHint");
        },
        ErrorCode::FuncMissingReturnType => {
            reveal_strlit("FUNC_MISSING_RETURN_TYPE");
            reveal_strlit("FuncMissingReturnType");
        },
        ErrorCode::BindingInvalidTarget => {
            reveal_strlit("BINDING_INVALID_TARGET");
            reveal_strlit("BindingInvalidTarget");
        },
        ErrorCode::BindingModuleNotFound => {
            reveal_strlit("BINDING_MODULE_NOT_FOUND");
            reveal_strlit("BindingModuleNotFound");
        },
        ErrorCode::BindingCallableNotFound => {
            reveal_strlit("BINDING_CALLABLE_NOT_FOUND");
            reveal_strlit("BindingCallableNotFound");
        },
        ErrorCode::BindingNotCallable => {
            reveal_strlit("BINDING_NOT_CALLABLE");
            reveal_strlit("BindingNotCallable");
        },
        ErrorCode::BindingSchemaMissing => {
            reveal_strlit("BINDING_SCHEMA_MISSING");
            reveal_strlit("BindingSchemaMissing");
        },
        ErrorCode::BindingSchemaInferenceFailed => {
            reveal_strlit("BINDING_SCHEMA_INFERENCE_FAILED");
            reveal_strlit("BindingSchemaInferenceFailed");
        },
        _ => {},
    }
}

proof fn lemma_spelled_5(c: ErrorCode)
    requires
        c == ErrorCode::BindingSchemaModeConflict || c == ErrorCode::BindingStrictSchemaIncompatible || c == ErrorCode::BindingFileInvalid || c == ErrorCode::CircularDependency || c == ErrorCode::MiddlewareChainError || c == ErrorCode::ApprovalDenied || c == ErrorCode::ApprovalTimeout || c == ErrorCode::ApprovalPending,
    ensures
        spells(wire_name(c), 0, code_name(c), 0),
{
    reveal_with_fuel(spells, 40);
    match c {
        ErrorCode::BindingSchemaModeConflict => {
            reveal_strlit("BINDING_SCHEMA_MODE_CONFLICT");
            reveal_strlit("BindingSchemaModeConflict");
        },
        ErrorCode::BindingStrictSchemaIncompatible => {
            reveal_strlit("BINDING_STRICT_SCHEMA_INCOMPATIBLE");
            reveal_strlit("BindingStrictSchemaIncompatible");
        },
        ErrorCode::BindingFileInvalid => {
            reveal_strlit("BINDING_FILE_INVALID");
            reveal_strlit("BindingFileInvalid");
        },
        ErrorCode::CircularDependency => {
            reveal_strlit("CIRCULAR_DEPENDENCY");
            reveal_strlit("CircularDependency");
        },
        ErrorCode::MiddlewareChainError => {
            reveal_strlit("MIDDLEWARE_CHAIN_ERROR");
            reveal_strlit("MiddlewareChainError");
        },
        ErrorCode::ApprovalDenied => {
            reveal_strlit("APPROVAL_DENIED");
            reveal_strlit("ApprovalDenied");
        },
        ErrorCode::ApprovalTimeout => {
            reveal_strlit("APPROVAL_TIMEOUT");
            reveal_strlit("ApprovalTimeout");
        },
        ErrorCode::ApprovalPending => {
            reveal_strlit("APPROVAL_PENDING");
            reveal_strlit("ApprovalPending");
        },
        _ => {},
    }
}

proof fn lemma_spelled_6(c: ErrorCode)
    requires
        c == ErrorCode::VersionIncompatible || c == ErrorCode::ErrorCodeCollision || c == ErrorCode::DependencyNotFound || c == ErrorCode::DependencyVersionMismatch || c == ErrorCode::ConfigNamespaceDuplicate || c == ErrorCode::ConfigNamespaceReserved || c == ErrorCode::ConfigEnvPrefixConflict || c == ErrorCode::ConfigMountError,
    ensures
        spells(wire_name(c), 0, code_name(c), 0),
{
    reveal_with_fuel(spells, 40);
    match c {
        ErrorCode::VersionIncompatible => {
            reveal_strlit("VERSION_INCOMPATIBLE");
            reveal_strlit("VersionIncompatible");
        },
        ErrorCode::ErrorCodeCollision => {
            reveal_strlit("ERROR_CODE_COLLISION");
            reveal_strlit("ErrorCodeCollision");
        },
        ErrorCode::DependencyNotFound => {
            reveal_strlit("DEPENDENCY_NOT_FOUND");
            reveal_strlit("DependencyNotFound");
        },
        ErrorCode::DependencyVersionMismatch => {
            reveal_strlit("DEPENDENCY_VERSION_MISMATCH");
            reveal_strlit("DependencyVersionMismatch");
        },
        ErrorCode::ConfigNamespaceDuplicate => {
            reveal_strlit("CONFIG_NAMESPACE_DUPLICATE");
            reveal_strlit("ConfigNamespaceDuplicate");
        },
        ErrorCode::ConfigNamespaceReserved => {
            reveal_strlit("CONFIG_NAMESPACE_RESERVED");
            reveal_strlit("ConfigNamespaceReserved");
        },
        ErrorCode::ConfigEnvPrefixConflict => {
            reveal_strlit("CONFIG_ENV_PREFIX_CONFLICT");
            reveal_strlit("ConfigEnvPrefixConflict");
        },
        ErrorCode::ConfigMountError => {
            reveal_strlit("CONFIG_MOUNT_ERROR");
            reveal_strlit("ConfigMountError");
        },
        _ => {},
    }
}

proof fn lemma_spelled_7(c: ErrorCode)
    requires
        c == ErrorCode::ConfigBindError || c == ErrorCode::ConfigEnvMapConflict || c == ErrorCode::ErrorFormatterDuplicate || c == ErrorCode::PipelineAbort || c == ErrorCode::PipelineConfigInvalid || c == ErrorCode::ConfigurationError || c == ErrorCode::PipelineHandlerNotSupported || c == ErrorCode::PipelineStepInsertionAmbiguous,
    ensures
        spells(wire_name(c), 0, code_name(c), 0),
{
    reveal_with_fuel(spells, 40);
    match c {
        ErrorCode::ConfigBindError => {
            reveal_strlit("CONFIG_BIND_ERROR");
            reveal_strlit("ConfigBindError");
        },
        ErrorCode::ConfigEnvMapConflict => {
            reveal_strlit("CONFIG_ENV_MAP_CONFLICT");
            reveal_strlit("ConfigEnvMapConflict");
        },
        ErrorCode::ErrorFormatterDuplicate => {
            reveal_strlit("ERROR_FORMATTER_DUPLICATE");
            reveal_strlit("ErrorFormatterDuplicate");
        },
        ErrorCode::PipelineAbort => {
            reveal_strlit("PIPELINE_ABORT");
            reveal_strlit("PipelineAbort");
        },
        ErrorCode::PipelineConfigInvalid => {
            reveal_strlit("PIPELINE_CONFIG_INVALID");
            reveal_strlit("PipelineConfigInvalid");
        },
        ErrorCode::ConfigurationError => {
            reveal_strlit("CONFIGURATION_ERROR");
            reveal_strlit("ConfigurationError");
        },
        ErrorCode::PipelineHandlerNotSupported => {
            reveal_strlit("PIPELINE_HANDLER_NOT_SUPPORTED");
            reveal_strlit("PipelineHandlerNotSupported");
        },
        ErrorCode::PipelineStepInsertionAmbiguous => {
            reveal_strlit("PIPELINE_STEP_INSERTION_AMBIGUOUS");
            reveal_strlit("PipelineStepInsertionAmbiguous");
        },
        _ => {},
    }
}

proof fn lemma_spelled_8(c: ErrorCode)
    requires
        c == ErrorCode::PipelineStepError || c == ErrorCode::PipelineStepNotFound || c == ErrorCode::PipelineDependencyError || c == ErrorCode::StepNotFound || c == ErrorCode::StepNotRemovable || c == ErrorCode::StepNotReplaceable || c == ErrorCode::StepNameDuplicate || c == ErrorCode::StrategyNotFound,
    ensures
        spells(wire_name(c), 0, code_name(c), 0),
{
    reveal_with_fuel(spells, 40);
    match c {
        ErrorCode::PipelineStepError => {
            reveal_strlit("PIPELINE_STEP_ERROR");
            reveal_strlit("PipelineStepError");
        },
        ErrorCode::PipelineStepNotFound => {
            reveal_strlit("PIPELINE_STEP_NOT_FOUND");
            reveal_strlit("PipelineStepNotFound");
        },
        ErrorCode::PipelineDependencyError => {
            reveal_strlit("PIPELINE_DEPENDENCY_ERROR");
            reveal_strlit("PipelineDependencyError");
        },
        ErrorCode::StepNotFound => {
            reveal_strlit("STEP_NOT_FOUND");
            reveal_strlit("StepNotFound");
        },
        ErrorCode::StepNotRemovable => {
            reveal_strlit("STEP_NOT_REMOVABLE");
            reveal_strlit("StepNotRemovable");
        },
        ErrorCode::StepNotReplaceable => {
            reveal_strlit("STEP_NOT_REPLACEABLE");
            reveal_strlit("StepNotReplaceable");
        },
        ErrorCode::StepNameDuplicate => {
            reveal_strlit("STEP_NAME_DUPLICATE");
            reveal_strlit("StepNameDuplicate");
        },
        ErrorCode::StrategyNotFound => {
            reveal_strlit("STRATEGY_NOT_FOUND");
            reveal_strlit("StrategyNotFound");
        },
        _ => {},
    }
}

proof fn lemma_spelled_9(c: ErrorCode)
    requires
        c == ErrorCode::EntryPointNotFound || c == ErrorCode::EntryPointAmbiguous || c == ErrorCode::EntryPointRuntimeUnsupported || c == ErrorCode::NoDiscovererConfigured || c == ErrorCode::TaskLimitExceeded || c == ErrorCode::VersionConstraintInvalid || c == ErrorCode::ModuleIdConflict || c == ErrorCode::InvalidSegment,
    ensures
        spells(wire_name(c), 0, code_name(c), 0),
{
    reveal_with_fuel(spells, 40);
    match c {
        ErrorCode::EntryPointNotFound => {
            reveal_strlit("ENTRY_POINT_NOT_FOUND");
            reveal_strlit("EntryPointNotFound");
        },
        ErrorCode::EntryPointAmbiguous => {
            reveal_strlit("ENTRY_POINT_AMBIGUOUS");
            reveal_strlit("EntryPointAmbiguous");
        },
        ErrorCode::EntryPointRuntimeUnsupported => {
            reveal_strlit("ENTRY_POINT_RUNTIME_UNSUPPORTED");
            reveal_strlit("EntryPointRuntimeUnsupported");
        },
        ErrorCode::NoDiscovererConfigured => {
            reveal_strlit("NO_DISCOVERER_CONFIGURED");
            reveal_strlit("NoDiscovererConfigured");
        },
        ErrorCode::TaskLimitExceeded => {
            reveal_strlit("TASK_LIMIT_EXCEEDED");
            reveal_strlit("TaskLimitExceeded");
        },
        ErrorCode::VersionConstraintInvalid => {
            reveal_strlit("VERSION_CONSTRAINT_INVALID");
            reveal_strlit("VersionConstraintInvalid");
        },
        ErrorCode::ModuleIdConflict => {
            reveal_strlit("MODULE_ID_CONFLICT");
            reveal_strlit("ModuleIdConflict");
        },
        ErrorCode::InvalidSegment => {
            reveal_strlit("INVALID_SEGMENT");
            reveal_strlit("InvalidSegment");
        },
        _ => {},
    }
}

proof fn lemma_spelled_10(c: ErrorCode)
    requires
        c == ErrorCode::IdTooLong || c == ErrorCode::CircuitBreakerOpen || c == ErrorCode::ModuleReloadConflict || c == ErrorCode::SysModuleRegistrationFailed || c == ErrorCode::SysModulesDisabled || c == ErrorCode::ConfigKeyRestricted || c == ErrorCode::InvalidModuleId || c == ErrorCode::ContextBindingError,
    ensures
        spells(wire_name(c), 0, code_name(c), 0),
{
    reveal_with_fuel(spells, 40);
    match c {
        ErrorCode::IdTooLong => {
            reveal_strlit("ID_TOO_LONG");
            reveal_strlit("IdTooLong");
        },
        ErrorCode::CircuitBreakerOpen => {
            reveal_strlit("CIRCUIT_BREAKER_OPEN");
            reveal_strlit("CircuitBreakerOpen");
        },
        ErrorCode::ModuleReloadConflict => {
            reveal_strlit("MODULE_RELOAD_CONFLICT");
            reveal_strlit("ModuleReloadConflict");
        },
        ErrorCode::SysModuleRegistrationFailed => {
            reveal_strlit("SYS_MODULE_REGISTRATION_FAILED");
            reveal_strlit("SysModuleRegistrationFailed");
        },
        ErrorCode::SysModulesDisabled => {
            reveal_strlit("SYS_MODULES_DISABLED");
            reveal_strlit("SysModulesDisabled");
        },
        ErrorCode::ConfigKeyRestricted => {
            reveal_strlit("CONFIG_KEY_RESTRICTED");
            reveal_strlit("ConfigKeyRestricted");
        },
        ErrorCode::InvalidModuleId => {
            reveal_strlit("INVALID_MODULE_ID");
            reveal_strlit("InvalidModuleId");
        },
        ErrorCode::ContextBindingError => {
            reveal_strlit("CONTEXT_BINDING_ERROR");
            reveal_strlit("ContextBindingError");
        },
        _ => {},
    }
}

} // verus!
