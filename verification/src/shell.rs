//! Plain configuration records of the service shell around the engine: the
//! per-request transaction policy marker, the page-head rewriting filter's
//! settings, and the test double's endpoint for the token ledger. The shell
//! itself — HTTP middleware, sockets, ledger calls — lives outside the
//! library; these records hold the data it is configured with.

use vstd::prelude::*;

verus! {

/// The marker enabling a database transaction around each request.
pub struct DatabaseTransaction {}

impl DatabaseTransaction {
    pub fn new() -> (r: DatabaseTransaction)
        ensures
            true,
    {
        DatabaseTransaction {  }
    }
}

/// The settings of the page-head rewriting filter: which header triggers
/// it, the front-end base address, and the application name it writes into
/// the page metadata.
pub struct Metatags {
    pub trigger_header: String,
    pub trigger_value: String,
    pub front_end_url: String,
    pub app_name: String,
}

impl Metatags {
    pub fn new(
        trigger_header: String,
        trigger_value: String,
        front_end_url: String,
        app_name: String,
    ) -> (r: Metatags)
        ensures
            r.trigger_header == trigger_header,
            r.trigger_value == trigger_value,
            r.front_end_url == front_end_url,
            r.app_name == app_name,
    {
        Metatags { trigger_header, trigger_value, front_end_url, app_name }
    }
}

/// The in-memory stand-in for the token-ledger client, configured with the
/// ledger's address alone.
pub struct TariTestClient {
    pub tari_url: String,
}

impl TariTestClient {
    pub fn new(tari_url: String) -> (r: TariTestClient)
        ensures
            r.tari_url == tari_url,
    {
        TariTestClient { tari_url }
    }
}

} // verus!
