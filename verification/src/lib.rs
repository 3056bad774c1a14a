//! Finding and quitting the processes that lock a file or folder on Windows:
//! the decisions, parsers and bookkeeping of that work, each with a contract.
//!
//! The system calls themselves are made by the caller, who hands their
//! results to the functions and state machines of this crate and performs
//! the actions those return.
pub mod handle;
pub mod locking;
pub mod process;
pub mod scan;
pub mod system_info;
pub mod text;
pub mod token;

pub use handle::SafeHandle;
pub use locking::{find_processes_locking_path, OpenFileHandle};
pub use process::{process_id, ProcessAction, ProcessEvent, QuitProcesses};
pub use scan::{HandleScan, ScanAction, ScanEvent};
pub use system_info::{parse_object_name, parse_system_handle_information, QueryAction, SystemInformationQuery};
pub use text::{process_path_from_module_name, read_unicode_string, wide_nul, UnicodeString};
pub use token::{DebugPrivilegeRequest, ElevationCheck, TokenAction, TokenEvent};
