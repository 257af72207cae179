//! Data model of the server's query and mutation results.
//!
//! Plain records: every field is optional where the server may omit
//! it.  The layers that move these records to and from the wire live
//! outside the verified core and hand values of these types in and
//! out.

use vstd::prelude::*;

verus! {

/// Session information: user details, token, and expiry.
#[derive(Debug, Clone, PartialEq, Eq)]
pub struct Session {
    pub user: Option<User>,
    pub token: Option<String>,
    pub expires: Option<String>,
    pub error: Option<ErrorInfo>,
}

/// User information.
#[derive(Debug, Clone, PartialEq, Eq)]
pub struct User {
    pub id: Option<String>,
    pub name: Option<String>,
    pub groups: Option<Vec<UserGroup>>,
    pub full_name: Option<String>,
    pub language: Option<String>,
    pub auto_logoff_sec: Option<i32>,
}

/// User group information.
#[derive(Debug, Clone, PartialEq, Eq)]
pub struct UserGroup {
    pub id: Option<String>,
    pub name: Option<String>,
}

/// Error information attached to a result.
#[derive(Debug, Clone, PartialEq, Eq)]
pub struct ErrorInfo {
    pub code: Option<String>,
    pub description: Option<String>,
}

/// Nonce for SWAC authentication.
#[derive(Debug, Clone, PartialEq, Eq)]
pub struct Nonce {
    pub value: Option<String>,
    pub valid_for: Option<i32>,
}

/// Quality information for tag values.
#[derive(Debug, Clone, PartialEq, Eq)]
pub struct Quality {
    pub quality: Option<String>,
    pub sub_status: Option<String>,
    pub limit: Option<String>,
    pub extended_sub_status: Option<String>,
    pub source_quality: Option<bool>,
    pub source_time: Option<bool>,
    pub time_corrected: Option<bool>,
}

/// Quality input for writing tag values.
#[derive(Debug, Clone, PartialEq, Eq)]
pub struct QualityInput {
    pub quality: String,
    pub sub_status: Option<String>,
}

/// Result of a tag write operation.
#[derive(Debug, Clone, PartialEq, Eq)]
pub struct WriteTagValuesResult {
    pub name: Option<String>,
    pub error: Option<ErrorInfo>,
}

/// Browse result for tags, alarms, and the like.
#[derive(Debug, Clone, PartialEq, Eq)]
pub struct BrowseTagsResult {
    pub name: Option<String>,
    pub display_name: Option<String>,
    pub object_type: Option<String>,
    pub data_type: Option<String>,
}

/// Input for alarm identifier operations.
#[derive(Debug, Clone, PartialEq, Eq)]
pub struct AlarmIdentifierInput {
    pub name: String,
    pub instance_id: Option<i32>,
}

/// Result of alarm mutation operations.
#[derive(Debug, Clone, PartialEq, Eq)]
pub struct AlarmMutationResult {
    pub alarm_name: Option<String>,
    pub error: Option<ErrorInfo>,
}

/// Result of active alarm mutation operations.
#[derive(Debug, Clone, PartialEq, Eq)]
pub struct ActiveAlarmMutationResult {
    pub alarm_name: Option<String>,
    pub alarm_instance_id: Option<i32>,
    pub error: Option<ErrorInfo>,
}

/// Redundancy state notification for subscriptions.
#[derive(Debug, Clone, PartialEq, Eq)]
pub struct ReduStateNotification {
    pub value: Option<ReduStateValue>,
    pub notification_reason: Option<String>,
}

/// Redundancy state value: active or passive, and when it was taken.
#[derive(Debug, Clone, PartialEq, Eq)]
pub struct ReduStateValue {
    pub value: Option<String>,
    pub timestamp: Option<String>,
}

} // verus!
