//! An access-controlled registry of risk-scored accounts.
//!
//! The registry keeps one owner, a table of reporters (accounts that may
//! write, each with a role) and a table of flagged accounts (each with a
//! category and a risk score). Every write names its caller and is checked
//! against the reporter table before it changes anything; reads are open to
//! everybody.
//!
//! [`state`] holds the registry as a mathematical state machine, [`proxy`]
//! the executable registry that is proved to follow it, and [`laws`] what
//! follows for every registry and every caller.

pub mod account;
pub mod category;
pub mod error;
pub mod laws;
pub mod proxy;
pub mod roles;
pub mod snapshot;
pub mod state;
pub mod table;

pub use account::AccountId;
pub use category::{AddressInfo, Category, MAX_RISK};
pub use error::{Privilege, ProxyError, Record};
pub use proxy::Proxy;
pub use roles::Roles;
pub use state::ProxyState;
pub use table::Table;
