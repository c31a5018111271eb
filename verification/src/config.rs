use vstd::prelude::*;

verus! {

/// What a run needs to know of its surroundings. The entry point builds one
/// value and hands it to whatever needs it: nothing in this library looks a
/// setting up by itself.
#[derive(Debug, PartialEq, Eq)]
pub struct Config {
    /// Where the content store listens.
    pub ipfs_url: String,
    /// How to reach the database that holds the table.
    pub database_connection_string: String,
    /// The publishing identity: the key whose name record a run updates.
    pub ipns_key: String,
}

impl Config {
    /// A configuration of the three settings, each kept as given.
    pub fn new(ipfs_url: String, database_connection_string: String, ipns_key: String) -> (config:
        Config)
        ensures
            config.ipfs_url == ipfs_url,
            config.database_connection_string == database_connection_string,
            config.ipns_key == ipns_key,
    {
        Config { ipfs_url, database_connection_string, ipns_key }
    }
}

impl Clone for Config {
    fn clone(&self) -> (copy: Config)
        ensures
            copy.ipfs_url@ == self.ipfs_url@,
            copy.database_connection_string@ == self.database_connection_string@,
            copy.ipns_key@ == self.ipns_key@,
    {
        Config {
            ipfs_url: self.ipfs_url.clone(),
            database_connection_string: self.database_connection_string.clone(),
            ipns_key: self.ipns_key.clone(),
        }
    }
}

} // verus!
