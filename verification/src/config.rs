use vstd::prelude::*;

verus! {

/// The credentials and the data directory the pipeline works with.  The
/// values are read from a configuration file outside the library and handed
/// in as plain strings; the library consumes them read-only.
pub struct Config {
    pub username: String,
    pub password: String,
    /// Root directory under which the page cache and the index live.
    pub data_dir: String,
}

impl Config {
    pub fn new(username: String, password: String, data_dir: String) -> (r: Config)
        ensures
            r.username@ == username@,
            r.password@ == password@,
            r.data_dir@ == data_dir@,
    {
        Config { username, password, data_dir }
    }
}

impl Clone for Config {
    fn clone(&self) -> (r: Config)
        ensures
            r.username@ == self.username@,
            r.password@ == self.password@,
            r.data_dir@ == self.data_dir@,
    {
        Config {
            username: self.username.clone(),
            password: self.password.clone(),
            data_dir: self.data_dir.clone(),
        }
    }
}

} // verus!
