//! A backend-agnostic layer for typed comparison predicates and field
//! mutations against relational rows, rendered into parameterized query
//! fragments for a named-marker dialect and a positional-marker dialect,
//! with placeholder text and bound values proved to stay in lock-step.

mod definable;
mod errors;
mod filter;
mod named_binding;
mod positional_binding;
mod sql_filter;
mod sql_result;
mod sql_updates;
mod sql_values;
mod text;
mod types;
mod value;

pub use definable::Definable;
pub use errors::{EntityNotFoundError, FromStrError, UnexpectedAffectedRowsError};
pub use filter::{Filter, FilterModel, NamedFilter, NamedFilterHolder};
pub use named_binding::{comma_seperated_named_binding_holders, MySqlHelper};
pub use positional_binding::{comma_seperated_binding_holders, SqlxHelper};
pub use sql_filter::SqlFilter;
pub use sql_result::{InsertResult, UpdateResult};
pub use sql_updates::SqlUpdates;
pub use sql_values::SqlValues;
pub use text::{i64_to_string, parse_i64_digits, parse_u64_digits, u64_to_string};
pub use types::{AsStaticStr, Entity};
pub use value::{Date, DateModel, DateTime, DateTimeModel, RepoValue, Time, TimeModel, ValueModel};
