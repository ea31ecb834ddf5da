//! What a session needs to know to reach and enter a database.

use crate::digits::decimal;
use crate::digits::decimal_string;
use vstd::prelude::*;
use vstd::string::StringExecFns;

verus! {

/// The account, the database and the address of a server, and whether
/// prepared statements are kept for reuse.
#[derive(Debug)]
pub struct ClientOptions {
    /// The account.
    pub user: String,
    /// The password of the account.
    pub password: String,
    /// The database.
    pub database: String,
    /// The name or address of the server.
    pub host: String,
    /// The TCP port of the server.
    pub port: u16,
    /// Whether prepared statements are kept for reuse.
    pub prepare: bool,
}

impl ClientOptions {
    /// Options with the given fields.
    pub fn new(
        user: String,
        password: String,
        database: String,
        host: String,
        port: u16,
        prepare: bool,
    ) -> (r: Self)
        ensures
            r == (ClientOptions { user, password, database, host, port, prepare }),
    {
        ClientOptions { user, password, database, host, port, prepare }
    }

    /// The address to connect to: the host, a colon and the port in
    /// decimal.
    pub fn connect_url(&self) -> (r: String)
        ensures
            r@ == self.host@ + seq![':'] + decimal(self.port as nat),
    {
        proof {
            reveal_strlit(":");
            assert(":"@ =~= seq![':']);
        }
        let mut r = self.host.clone();
        r.append(":");
        let port = decimal_string(self.port as u64);
        r.append(port.as_str());
        r
    }
}

impl Clone for ClientOptions {
    fn clone(&self) -> (r: Self)
        ensures
            r == *self,
    {
        ClientOptions {
            user: self.user.clone(),
            password: self.password.clone(),
            database: self.database.clone(),
            host: self.host.clone(),
            port: self.port,
            prepare: self.prepare,
        }
    }
}

} // verus!
