//! Connections to language-model services.
use vstd::prelude::*;

verus! {

/// Where a language-model service answers, and the key it wants.
#[derive(Debug)]
pub struct Connection {
    pub api_base: String,
    pub api_key: Option<String>,
}

/// A connection, tagged with the kind of service behind it.
#[derive(Debug)]
pub enum ConnectionLLM {
    HyprCloud(Connection),
    HyprLocal(Connection),
    Custom(Connection),
}

impl ConnectionLLM {
    /// The connection, whatever the kind of service.
    pub open spec fn connection(&self) -> &Connection {
        match self {
            ConnectionLLM::HyprCloud(conn) => conn,
            ConnectionLLM::HyprLocal(conn) => conn,
            ConnectionLLM::Custom(conn) => conn,
        }
    }

    /// A view of the connection, whatever the kind of service.
    pub fn as_ref(&self) -> (r: &Connection)
        ensures
            r == self.connection(),
    {
        match self {
            ConnectionLLM::HyprCloud(conn) => conn,
            ConnectionLLM::HyprLocal(conn) => conn,
            ConnectionLLM::Custom(conn) => conn,
        }
    }
}

impl From<ConnectionLLM> for Connection {
    fn from(value: ConnectionLLM) -> (r: Connection) {
        match value {
            ConnectionLLM::HyprCloud(conn) => conn,
            ConnectionLLM::HyprLocal(conn) => conn,
            ConnectionLLM::Custom(conn) => conn,
        }
    }
}

impl vstd::std_specs::convert::FromSpecImpl<ConnectionLLM> for Connection {
    open spec fn obeys_from_spec() -> bool {
        true
    }

    open spec fn from_spec(v: ConnectionLLM) -> Connection {
        *v.connection()
    }
}

} // verus!
