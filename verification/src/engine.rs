//! The engine-API payload types: version-specific validation of payload
//! attributes against the chain's timestamp-gated rules.

use vstd::prelude::*;

use crate::types::{ChainRules, PayloadAttributes};

verus! {

/// The engine-API message version a payload or attribute set arrived
/// under.
#[derive(Clone, Copy, Debug, PartialEq, Eq, Structural)]
pub enum EngineApiMessageVersion {
    V1,
    V2,
    V3,
    V4,
}

/// Why a set of payload attributes is invalid for its message version.
#[derive(Clone, Copy, Debug, PartialEq, Eq, Structural)]
pub enum AttributesValidationError {
    /// The first version knows no withdrawals at all.
    WithdrawalsNotSupportedInV1,
    /// Withdrawals are enabled at the timestamp but the attributes carry
    /// none.
    NoWithdrawalsPostShanghai,
    /// The attributes carry withdrawals before they are enabled.
    HasWithdrawalsPreShanghai,
    /// The first two versions know no parent beacon block root.
    ParentBeaconBlockRootNotSupportedBeforeV3,
    /// The beacon root is required at the timestamp but absent.
    NoParentBeaconBlockRootPostCancun,
    /// The attributes carry a beacon root before it is meaningful.
    UnexpectedParentBeaconBlockRoot,
}

/// How attributes validate: withdrawals are checked before the parent
/// beacon block root, each against the version and the rules active at
/// the attribute timestamp.
pub open spec fn spec_validate_version_specific_fields(
    chain_spec: ChainRules,
    version: EngineApiMessageVersion,
    attrs: PayloadAttributes,
) -> Result<(), AttributesValidationError> {
    let shanghai = chain_spec.spec_is_shanghai_active_at_timestamp(attrs.timestamp);
    let cancun = chain_spec.spec_is_cancun_active_at_timestamp(attrs.timestamp);
    if version is V1 && attrs.withdrawals is Some {
        Err(AttributesValidationError::WithdrawalsNotSupportedInV1)
    } else if !(version is V1) && shanghai && attrs.withdrawals is None {
        Err(AttributesValidationError::NoWithdrawalsPostShanghai)
    } else if !(version is V1) && !shanghai && attrs.withdrawals is Some {
        Err(AttributesValidationError::HasWithdrawalsPreShanghai)
    } else if (version is V1 || version is V2) && attrs.parent_beacon_block_root is Some {
        Err(AttributesValidationError::ParentBeaconBlockRootNotSupportedBeforeV3)
    } else if (version is V3 || version is V4) && cancun && attrs.parent_beacon_block_root
        is None {
        Err(AttributesValidationError::NoParentBeaconBlockRootPostCancun)
    } else if (version is V3 || version is V4) && !cancun && attrs.parent_beacon_block_root
        is Some {
        Err(AttributesValidationError::UnexpectedParentBeaconBlockRoot)
    } else {
        Ok(())
    }
}

/// The engine-API types of the Taiko payload pipeline.
#[derive(Clone, Copy, Debug, PartialEq, Eq, Structural, Default)]
pub struct TaikoEngineTypes;

impl TaikoEngineTypes {
    /// Validate the version-specific attribute fields; see
    /// [`spec_validate_version_specific_fields`].
    pub fn validate_version_specific_fields(
        chain_spec: &ChainRules,
        version: EngineApiMessageVersion,
        attrs: &PayloadAttributes,
    ) -> (r: Result<(), AttributesValidationError>)
        ensures
            r == spec_validate_version_specific_fields(*chain_spec, version, *attrs),
    {
        let shanghai = chain_spec.is_shanghai_active_at_timestamp(attrs.timestamp);
        let cancun = chain_spec.is_cancun_active_at_timestamp(attrs.timestamp);
        let is_v1 = matches!(version, EngineApiMessageVersion::V1);
        let is_v2 = matches!(version, EngineApiMessageVersion::V2);
        let has_withdrawals = matches!(attrs.withdrawals, Some(_));
        let has_beacon_root = matches!(attrs.parent_beacon_block_root, Some(_));
        if is_v1 && has_withdrawals {
            Err(AttributesValidationError::WithdrawalsNotSupportedInV1)
        } else if !is_v1 && shanghai && !has_withdrawals {
            Err(AttributesValidationError::NoWithdrawalsPostShanghai)
        } else if !is_v1 && !shanghai && has_withdrawals {
            Err(AttributesValidationError::HasWithdrawalsPreShanghai)
        } else if (is_v1 || is_v2) && has_beacon_root {
            Err(AttributesValidationError::ParentBeaconBlockRootNotSupportedBeforeV3)
        } else if !is_v1 && !is_v2 && cancun && !has_beacon_root {
            Err(AttributesValidationError::NoParentBeaconBlockRootPostCancun)
        } else if !is_v1 && !is_v2 && !cancun && has_beacon_root {
            Err(AttributesValidationError::UnexpectedParentBeaconBlockRoot)
        } else {
            Ok(())
        }
    }
}

} // verus!
