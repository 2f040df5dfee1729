//! The web handler's state: what the HTTP layer needs to serve requests.
//! Route wiring and serving are the surrounding layer's business.
use vstd::prelude::*;

use crate::config::ConfigParams;

verus! {

/// State behind the list and price-history routes.
pub struct WebHandler {
    pub db_file: String,
    pub port: u16,
    pub url_prefix: Option<String>,
}

impl WebHandler {
    pub fn new(conf: &ConfigParams) -> (r: Self)
        ensures
            r.db_file == conf.db_file,
            r.port == conf.port,
            r.url_prefix == conf.url_prefix,
    {
        WebHandler {
            db_file: conf.db_file.clone(),
            port: conf.port,
            url_prefix: crate::config::cloneOptString(&conf.url_prefix),
        }
    }
}

impl Clone for WebHandler {
    fn clone(&self) -> (r: Self)
        ensures
            r.db_file == self.db_file,
            r.port == self.port,
            r.url_prefix == self.url_prefix,
    {
        WebHandler {
            db_file: self.db_file.clone(),
            port: self.port,
            url_prefix: crate::config::cloneOptString(&self.url_prefix),
        }
    }
}

} // verus!
