//! Working with the access token of the current process: whether it is
//! elevated, and enabling `SeDebugPrivilege` on it.
//!
//! Each task is a short sequence of system calls. The state machines here
//! say which call comes next and what the task answers; the caller makes the
//! calls and reports each outcome. A token that was opened is always closed
//! before the task finishes, and only then.
use vstd::prelude::*;

verus! {

/// Access right to query a token.
pub const TOKEN_QUERY: u32 = 0x0008u32;

/// Access right to enable or disable the privileges of a token.
pub const TOKEN_ADJUST_PRIVILEGES: u32 = 0x0020u32;

/// Attribute of an enabled privilege.
pub const SE_PRIVILEGE_ENABLED: u32 = 0x0000_0002u32;

/// The error that `AdjustTokenPrivileges` leaves when the token lacks a
/// privilege it was asked to enable.
pub const ERROR_NOT_ALL_ASSIGNED: u32 = 1300u32;

/// `SeDebugPrivilege` as a NUL-terminated UTF-16 string.
pub const SE_DEBUG_NAME: [u16; 17] = [
    83u16,
    101u16,
    68u16,
    101u16,
    98u16,
    117u16,
    103u16,
    80u16,
    114u16,
    105u16,
    118u16,
    105u16,
    108u16,
    101u16,
    103u16,
    101u16,
    0u16,
];

/// The size in bytes of a `TOKEN_PRIVILEGES` of one privilege, as Windows
/// lays it out.
pub const TOKEN_PRIVILEGES_SIZE: u32 = 16u32;

/// A locally unique identifier, naming a privilege on this system.
#[allow(non_snake_case)]
#[derive(Clone, Copy)]
pub struct LUID {
    pub LowPart: u32,
    pub HighPart: i32,
}

/// A privilege with its attributes.
#[allow(non_snake_case, non_camel_case_types)]
#[derive(Clone, Copy)]
pub struct LUID_AND_ATTRIBUTES {
    pub Luid: LUID,
    pub Attributes: u32,
}

/// Whether a token is elevated.
#[allow(non_snake_case, non_camel_case_types)]
#[derive(Clone, Copy)]
pub struct TOKEN_ELEVATION {
    pub TokenIsElevated: u32,
}

/// A set of privileges, here of one privilege.
#[allow(non_snake_case, non_camel_case_types)]
#[derive(Clone, Copy)]
pub struct TOKEN_PRIVILEGES {
    pub PrivilegeCount: u32,
    pub Privileges: [LUID_AND_ATTRIBUTES; 1],
}

/// The request that enables the privilege `luid` and nothing else.
pub open spec fn enabled_privilege(luid: LUID) -> TOKEN_PRIVILEGES {
    TOKEN_PRIVILEGES {
        PrivilegeCount: 1,
        Privileges: [LUID_AND_ATTRIBUTES { Luid: luid, Attributes: SE_PRIVILEGE_ENABLED }],
    }
}

/// The request enables one privilege, exactly the one given, and nothing
/// else: its count is one and its only entry is `luid` with
/// `SE_PRIVILEGE_ENABLED`.
pub proof fn lemma_enabled_privilege_is_the_given_one(luid: LUID)
    ensures
        enabled_privilege(luid).PrivilegeCount == 1,
        enabled_privilege(luid).Privileges[0].Luid == luid,
        enabled_privilege(luid).Privileges[0].Luid.LowPart == luid.LowPart,
        enabled_privilege(luid).Privileges[0].Luid.HighPart == luid.HighPart,
        enabled_privilege(luid).Privileges[0].Attributes == SE_PRIVILEGE_ENABLED,
{
}

/// Builds the request that enables the privilege `luid`.
pub fn enable_privilege(luid: LUID) -> (r: TOKEN_PRIVILEGES)
    ensures
        r == enabled_privilege(luid),
        r.PrivilegeCount == 1,
        r.Privileges[0].Luid == luid,
        r.Privileges[0].Attributes == SE_PRIVILEGE_ENABLED,
{
    TOKEN_PRIVILEGES {
        PrivilegeCount: 1,
        Privileges: [LUID_AND_ATTRIBUTES { Luid: luid, Attributes: SE_PRIVILEGE_ENABLED }],
    }
}

/// The next system call to make, or the answer of the task.
pub enum TokenAction {
    /// `OpenProcessToken` on the current process with this access.
    OpenToken { desired_access: u32 },
    /// `GetTokenInformation` for `TokenElevation` into a `TOKEN_ELEVATION`.
    QueryElevation,
    /// `LookupPrivilegeValueW` of the privilege named `name` (NUL-terminated
    /// UTF-16); on the local system, that is with a null system name, when
    /// `on_local_system` holds.
    LookupPrivilege { on_local_system: bool, name: [u16; 17] },
    /// `AdjustTokenPrivileges` with this new state, then `GetLastError`.
    /// `DisableAllPrivileges` is `disable_all_privileges`, the buffer length
    /// is `buffer_length`, and the previous state is asked for only when
    /// `previous_state_requested` holds (else both out-arguments are null).
    AdjustPrivileges {
        disable_all_privileges: i32,
        new_state: TOKEN_PRIVILEGES,
        buffer_length: u32,
        previous_state_requested: bool,
    },
    /// `CloseHandle` on the token.
    CloseToken,
    /// The task is over, with this answer.
    Finish { succeeded: bool },
}

/// The outcome of the last system call.
pub enum TokenEvent {
    /// `OpenProcessToken` returned `status` (zero for failure).
    TokenOpened { status: i32 },
    /// `GetTokenInformation` returned `status` and filled `elevation`.
    ElevationQueried { status: i32, elevation: TOKEN_ELEVATION },
    /// `LookupPrivilegeValueW` returned `status` and filled `luid`.
    PrivilegeLookedUp { status: i32, luid: LUID },
    /// `AdjustTokenPrivileges` returned `status`; `GetLastError` then gave
    /// `last_error`.
    PrivilegesAdjusted { status: i32, last_error: u32 },
    /// The token was closed.
    TokenClosed,
}

/// The progress of checking whether the current process is elevated.
pub enum ElevationCheck {
    OpeningToken,
    QueryingElevation,
    ClosingToken { elevated: bool },
    Finished { elevated: bool },
}

/// The call that an elevation check in state `s` waits on.
pub open spec fn elevation_action(s: ElevationCheck) -> TokenAction {
    match s {
        ElevationCheck::OpeningToken => TokenAction::OpenToken { desired_access: TOKEN_QUERY },
        ElevationCheck::QueryingElevation => TokenAction::QueryElevation,
        ElevationCheck::ClosingToken { .. } => TokenAction::CloseToken,
        ElevationCheck::Finished { elevated } => TokenAction::Finish { succeeded: elevated },
    }
}

/// One step of an elevation check: the process is elevated when the token
/// opens, the query succeeds and the token says so. An event that the state
/// does not wait on changes nothing.
pub open spec fn elevation_next(s: ElevationCheck, e: TokenEvent) -> (ElevationCheck, TokenAction) {
    let n = match (s, e) {
        (ElevationCheck::OpeningToken, TokenEvent::TokenOpened { status }) => if status == 0 {
            ElevationCheck::Finished { elevated: false }
        } else {
            ElevationCheck::QueryingElevation
        },
        (ElevationCheck::QueryingElevation, TokenEvent::ElevationQueried { status, elevation }) => {
            ElevationCheck::ClosingToken { elevated: status != 0 && elevation.TokenIsElevated != 0 }
        },
        (ElevationCheck::ClosingToken { elevated }, TokenEvent::TokenClosed) => {
            ElevationCheck::Finished { elevated }
        },
        _ => s,
    };
    (n, elevation_action(n))
}

impl ElevationCheck {
    /// Starts a check: the token is opened for querying first.
    pub fn start() -> (r: (ElevationCheck, TokenAction))
        ensures
            r.0 == ElevationCheck::OpeningToken,
            r.1 == elevation_action(r.0),
    {
        (ElevationCheck::OpeningToken, TokenAction::OpenToken { desired_access: TOKEN_QUERY })
    }

    /// Takes the outcome of the last call and says what comes next.
    pub fn step(self, event: TokenEvent) -> (r: (ElevationCheck, TokenAction))
        ensures
            r == elevation_next(self, event),
    {
        let n = match (self, event) {
            (ElevationCheck::OpeningToken, TokenEvent::TokenOpened { status }) => if status == 0 {
                ElevationCheck::Finished { elevated: false }
            } else {
                ElevationCheck::QueryingElevation
            },
            (
                ElevationCheck::QueryingElevation,
                TokenEvent::ElevationQueried { status, elevation },
            ) => ElevationCheck::ClosingToken {
                elevated: status != 0 && elevation.TokenIsElevated != 0,
            },
            (ElevationCheck::ClosingToken { elevated }, TokenEvent::TokenClosed) => {
                ElevationCheck::Finished { elevated }
            },
            (s, _) => s,
        };
        let a = match n {
            ElevationCheck::OpeningToken => TokenAction::OpenToken { desired_access: TOKEN_QUERY },
            ElevationCheck::QueryingElevation => TokenAction::QueryElevation,
            ElevationCheck::ClosingToken { .. } => TokenAction::CloseToken,
            ElevationCheck::Finished { elevated } => TokenAction::Finish { succeeded: elevated },
        };
        (n, a)
    }
}

/// An elevation check answers `false` at once when the token does not open,
/// without closing anything. When the token opens it is queried, then
/// closed, and the answer is whether the query succeeded with an elevated
/// token.
pub proof fn lemma_elevation_check(open_status: i32, query_status: i32, elevation: TOKEN_ELEVATION)
    ensures
        ({
            let (s1, a1) = elevation_next(
                ElevationCheck::OpeningToken,
                TokenEvent::TokenOpened { status: open_status },
            );
            let (s2, a2) = elevation_next(
                s1,
                TokenEvent::ElevationQueried { status: query_status, elevation },
            );
            let (s3, a3) = elevation_next(s2, TokenEvent::TokenClosed);
            if open_status == 0 {
                a1 == TokenAction::Finish { succeeded: false }
            } else {
                &&& a1 == TokenAction::QueryElevation
                &&& a2 == TokenAction::CloseToken
                &&& a3 == TokenAction::Finish {
                    succeeded: query_status != 0 && elevation.TokenIsElevated != 0,
                }
            }
        }),
{
}

/// The progress of enabling `SeDebugPrivilege` on the current process.
pub enum DebugPrivilegeRequest {
    OpeningToken,
    LookingUpPrivilege,
    AdjustingPrivileges { new_state: TOKEN_PRIVILEGES },
    ClosingToken { granted: bool },
    Finished { granted: bool },
}

/// The call that a request in state `s` waits on.
pub open spec fn debug_privilege_action(s: DebugPrivilegeRequest) -> TokenAction {
    match s {
        DebugPrivilegeRequest::OpeningToken => TokenAction::OpenToken {
            desired_access: TOKEN_ADJUST_PRIVILEGES,
        },
        DebugPrivilegeRequest::LookingUpPrivilege => TokenAction::LookupPrivilege {
            on_local_system: true,
            name: SE_DEBUG_NAME,
        },
        DebugPrivilegeRequest::AdjustingPrivileges { new_state } => TokenAction::AdjustPrivileges {
            disable_all_privileges: 0,
            new_state,
            buffer_length: TOKEN_PRIVILEGES_SIZE,
            previous_state_requested: false,
        },
        DebugPrivilegeRequest::ClosingToken { .. } => TokenAction::CloseToken,
        DebugPrivilegeRequest::Finished { granted } => TokenAction::Finish { succeeded: granted },
    }
}

/// One step of enabling `SeDebugPrivilege`: the privilege is granted when the
/// token opens, the privilege is found, and the adjustment succeeds without
/// `ERROR_NOT_ALL_ASSIGNED`. An event that the state does not wait on changes
/// nothing.
pub open spec fn debug_privilege_next(s: DebugPrivilegeRequest, e: TokenEvent) -> (
    DebugPrivilegeRequest,
    TokenAction,
) {
    let n = match (s, e) {
        (DebugPrivilegeRequest::OpeningToken, TokenEvent::TokenOpened { status }) => if status
            == 0 {
            DebugPrivilegeRequest::Finished { granted: false }
        } else {
            DebugPrivilegeRequest::LookingUpPrivilege
        },
        (DebugPrivilegeRequest::LookingUpPrivilege, TokenEvent::PrivilegeLookedUp { status, luid }) => {
            if status == 0 {
                DebugPrivilegeRequest::ClosingToken { granted: false }
            } else {
                DebugPrivilegeRequest::AdjustingPrivileges { new_state: enabled_privilege(luid) }
            }
        },
        (
            DebugPrivilegeRequest::AdjustingPrivileges { .. },
            TokenEvent::PrivilegesAdjusted { status, last_error },
        ) => DebugPrivilegeRequest::ClosingToken {
            granted: status != 0 && last_error != ERROR_NOT_ALL_ASSIGNED,
        },
        (DebugPrivilegeRequest::ClosingToken { granted }, TokenEvent::TokenClosed) => {
            DebugPrivilegeRequest::Finished { granted }
        },
        _ => s,
    };
    (n, debug_privilege_action(n))
}

impl DebugPrivilegeRequest {
    /// Starts a request: the token is opened for adjusting privileges first.
    pub fn start() -> (r: (DebugPrivilegeRequest, TokenAction))
        ensures
            r.0 == DebugPrivilegeRequest::OpeningToken,
            r.1 == debug_privilege_action(r.0),
    {
        (
            DebugPrivilegeRequest::OpeningToken,
            TokenAction::OpenToken { desired_access: TOKEN_ADJUST_PRIVILEGES },
        )
    }

    /// Takes the outcome of the last call and says what comes next.
    pub fn step(self, event: TokenEvent) -> (r: (DebugPrivilegeRequest, TokenAction))
        ensures
            r == debug_privilege_next(self, event),
    {
        let n = match (self, event) {
            (DebugPrivilegeRequest::OpeningToken, TokenEvent::TokenOpened { status }) => if status
                == 0 {
                DebugPrivilegeRequest::Finished { granted: false }
            } else {
                DebugPrivilegeRequest::LookingUpPrivilege
            },
            (
                DebugPrivilegeRequest::LookingUpPrivilege,
                TokenEvent::PrivilegeLookedUp { status, luid },
            ) => {
                if status == 0 {
                    DebugPrivilegeRequest::ClosingToken { granted: false }
                } else {
                    DebugPrivilegeRequest::AdjustingPrivileges { new_state: enable_privilege(luid) }
                }
            },
            (
                DebugPrivilegeRequest::AdjustingPrivileges { .. },
                TokenEvent::PrivilegesAdjusted { status, last_error },
            ) => DebugPrivilegeRequest::ClosingToken {
                granted: status != 0 && last_error != ERROR_NOT_ALL_ASSIGNED,
            },
            (DebugPrivilegeRequest::ClosingToken { granted }, TokenEvent::TokenClosed) => {
                DebugPrivilegeRequest::Finished { granted }
            },
            (s, _) => s,
        };
        let a = match n {
            DebugPrivilegeRequest::OpeningToken => TokenAction::OpenToken {
                desired_access: TOKEN_ADJUST_PRIVILEGES,
            },
            DebugPrivilegeRequest::LookingUpPrivilege => TokenAction::LookupPrivilege {
            on_local_system: true,
            name: SE_DEBUG_NAME,
        },
            DebugPrivilegeRequest::AdjustingPrivileges { new_state } => TokenAction::AdjustPrivileges {
                disable_all_privileges: 0,
                new_state,
                buffer_length: TOKEN_PRIVILEGES_SIZE,
                previous_state_requested: false,
            },
            DebugPrivilegeRequest::ClosingToken { .. } => TokenAction::CloseToken,
            DebugPrivilegeRequest::Finished { granted } => TokenAction::Finish { succeeded: granted },
        };
        (n, a)
    }
}

/// Enabling `SeDebugPrivilege` answers `false` at once when the token does
/// not open, without closing anything. Once the token is open it is closed
/// exactly before the answer: right after a failed lookup (answer `false`),
/// or after the adjustment (answer: whether it succeeded and assigned the
/// privilege). The lookup is of `SeDebugPrivilege` on the local system; the
/// adjustment enables just the privilege looked up, disables nothing, and
/// asks for no previous state.
pub proof fn lemma_debug_privilege_request(
    open_status: i32,
    lookup_status: i32,
    luid: LUID,
    adjust_status: i32,
    last_error: u32,
)
    ensures
        ({
            let (s1, a1) = debug_privilege_next(
                DebugPrivilegeRequest::OpeningToken,
                TokenEvent::TokenOpened { status: open_status },
            );
            let (s2, a2) = debug_privilege_next(
                s1,
                TokenEvent::PrivilegeLookedUp { status: lookup_status, luid },
            );
            let (s3, a3) = debug_privilege_next(
                s2,
                TokenEvent::PrivilegesAdjusted { status: adjust_status, last_error },
            );
            let (s4, a4) = debug_privilege_next(s3, TokenEvent::TokenClosed);
            if open_status == 0 {
                a1 == TokenAction::Finish { succeeded: false }
            } else if lookup_status == 0 {
                &&& a1 == TokenAction::LookupPrivilege { on_local_system: true, name: SE_DEBUG_NAME }
                &&& a2 == TokenAction::CloseToken
                &&& debug_privilege_next(s2, TokenEvent::TokenClosed).1 == TokenAction::Finish {
                    succeeded: false,
                }
            } else {
                &&& a1 == TokenAction::LookupPrivilege { on_local_system: true, name: SE_DEBUG_NAME }
                &&& a2 == TokenAction::AdjustPrivileges {
                    disable_all_privileges: 0,
                    new_state: enabled_privilege(luid),
                    buffer_length: TOKEN_PRIVILEGES_SIZE,
                    previous_state_requested: false,
                }
                &&& a3 == TokenAction::CloseToken
                &&& a4 == TokenAction::Finish {
                    succeeded: adjust_status != 0 && last_error != ERROR_NOT_ALL_ASSIGNED,
                }
            }
        }),
{
}

} // verus!
