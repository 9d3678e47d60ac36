//! A multi-engine database access layer: one uniform surface to compile
//! filtered and paginated queries, generate DDL, plan row mutations and
//! inspect schemas over six structurally different backends.

use vstd::prelude::*;

pub mod text;
pub mod values;
pub mod filters;
pub mod engine;
pub mod schema_ops;
pub mod mutation;
pub mod catalog;
pub mod table_data;
pub mod query_exec;
pub mod registry;
pub mod import;
pub mod export;

verus! {

/// The error kinds the library reports.
#[derive(Debug, Clone)]
pub enum VelocityError {
    /// Pool creation, auth or network failure, or an unknown connection id.
    Connection(String),
    /// Malformed SQL, constraint violation, or an operation the engine refuses.
    Query(String),
    /// A referenced connection id absent from the directory.
    NotFound(String),
}

impl VelocityError {
    /// The message carried by the error, whatever its kind.
    pub fn message(&self) -> (m: &String)
        ensures
            m@ == self.spec_message(),
    {
        match self {
            VelocityError::Connection(m) => m,
            VelocityError::Query(m) => m,
            VelocityError::NotFound(m) => m,
        }
    }

    pub open spec fn spec_message(&self) -> Seq<char> {
        match self {
            VelocityError::Connection(m) => m@,
            VelocityError::Query(m) => m@,
            VelocityError::NotFound(m) => m@,
        }
    }

    /// The error every delegated operation reports when its id has no
    /// live pool.
    pub fn not_connected() -> (e: Self)
        ensures
            e is Connection,
            e.spec_message() == "Not connected"@,
    {
        VelocityError::Connection("Not connected".to_owned())
    }

    /// The error a mutation batch reports when its id has no live pool.
    pub fn connection_not_found(id: &str) -> (e: Self)
        ensures
            e is NotFound,
            e.spec_message() == "Connection "@ + id@ + " not found"@,
    {
        proof {
            reveal_strlit("Connection ");
            reveal_strlit(" not found");
        }
        let mut m = "Connection ".to_owned();
        m.append(id);
        m.append(" not found");
        proof {
            assert(m@ =~= "Connection "@ + id@ + " not found"@);
        }
        VelocityError::NotFound(m)
    }
}

} // verus!
