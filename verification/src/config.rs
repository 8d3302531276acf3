//! The settings that the user may change.
use vstd::prelude::*;
use vstd::string::*;

verus! {

/// The client identifier that is used when the settings name none.
pub fn default_client_id() -> (r: &'static str)
    ensures
        r@ == "ac138a64-055b-4915-b670-31200c6235e6"@,
{
    "ac138a64-055b-4915-b670-31200c6235e6"
}

/// The identifiers under which the client signs in.
#[derive(Debug, Clone)]
pub struct Config {
    pub client_id: String,
    pub tenant_id: String,
}

impl Config {
    /// The settings with the built-in client identifier in place of an empty
    /// one.
    pub fn with_default_client(self) -> (r: Self)
        ensures
            r.tenant_id == self.tenant_id,
            r.client_id@ == if self.client_id@.len() == 0 {
                "ac138a64-055b-4915-b670-31200c6235e6"@
            } else {
                self.client_id@
            },
    {
        if self.client_id.as_str().is_empty() {
            Config { client_id: String::from_str(default_client_id()), tenant_id: self.tenant_id }
        } else {
            self
        }
    }

    /// The settings with the client identifier replaced by the one given on
    /// the command line, if one was given.
    pub fn with_client_override(self, client_id: Option<String>) -> (r: Self)
        ensures
            r.tenant_id == self.tenant_id,
            r.client_id == match client_id {
                Some(id) => id,
                None => self.client_id,
            },
    {
        match client_id {
            Some(id) => Config { client_id: id, tenant_id: self.tenant_id },
            None => self,
        }
    }
}

} // verus!
