//! Service configuration. Loading it from a file is the surrounding
//! layer's business; the core only defines the shape and the defaults.
use vstd::prelude::*;

verus! {

/// Parameters of one service instance.
pub struct ConfigParams {
    /// Sub-directory the service is located under, without leading or
    /// trailing slashes; at most one slash inside.
    pub url_prefix: Option<String>,
    pub port: u16,
    pub db_file: String,
    pub update_interval_sec: u64,
    /// Path to the external drop-alert notifier, if alerts are wanted.
    pub telegram_notifier: Option<String>,
}

impl ConfigParams {
    /// The parameters used when no config file is found.
    pub fn default() -> (r: Self)
        ensures
            r.url_prefix is None,
            r.port == 8000,
            r.db_file@ == "wishlist.db"@,
            r.update_interval_sec == 3600,
            r.telegram_notifier is None,
    {
        ConfigParams {
            url_prefix: None,
            port: 8000,
            db_file: String::from_str("wishlist.db"),
            update_interval_sec: 3600,
            telegram_notifier: None,
        }
    }
}

impl Clone for ConfigParams {
    fn clone(&self) -> (r: Self)
        ensures
            r.url_prefix == self.url_prefix,
            r.port == self.port,
            r.db_file == self.db_file,
            r.update_interval_sec == self.update_interval_sec,
            r.telegram_notifier == self.telegram_notifier,
    {
        ConfigParams {
            url_prefix: cloneOptString(&self.url_prefix),
            port: self.port,
            db_file: self.db_file.clone(),
            update_interval_sec: self.update_interval_sec,
            telegram_notifier: cloneOptString(&self.telegram_notifier),
        }
    }
}

/// A copy of an optional string that is equal to it, not merely
/// view-equal.
pub fn cloneOptString(s: &Option<String>) -> (r: Option<String>)
    ensures
        r == *s,
{
    match s {
        Option::Some(v) => Some(v.clone()),
        Option::None => None,
    }
}

} // verus!
