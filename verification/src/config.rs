//! Server configuration.

use vstd::prelude::*;
use crate::auth::AuthType;

verus! {

/// What the server listens on and which authentication kinds it offers.
#[derive(Clone, Debug)]
pub struct Config {
    pub bind_address: String,
    pub available_auth_types: Vec<AuthType>,
}

/// The message given for a configuration file whose extension is not `json`.
pub open spec fn only_json_message() -> Seq<char> {
    "Currently only json format is supported for config files"@
}

/// The message given for a configuration file without an extension.
pub open spec fn unknown_format_message() -> Seq<char> {
    "unknown file format"@
}

/// The address the server listens on when no configuration file is given.
pub open spec fn default_bind_address() -> Seq<char> {
    "0.0.0.0:5114"@
}

impl Config {
    /// Decides from the extension of a configuration file's path whether
    /// the file can be read: only `json` files can.
    pub fn check_extension(extension: Option<&str>) -> (res: Result<(), String>)
        ensures
            match extension {
                Some(ext) => if ext@ == "json"@ {
                    res is Ok
                } else {
                    res matches Err(m) && m@ == only_json_message()
                },
                None => res matches Err(m) && m@ == unknown_format_message(),
            },
    {
        match extension {
            Some(ext) => {
                if ext.to_owned() != "json".to_owned() {
                    return Err("Currently only json format is supported for config files".to_owned());
                }
                Ok(())
            },
            None => Err("unknown file format".to_owned()),
        }
    }
}

impl Default for Config {
    fn default() -> (c: Self)
        ensures
            c.bind_address@ == default_bind_address(),
            c.available_auth_types@ == Seq::<AuthType>::empty(),
    {
        Config { bind_address: "0.0.0.0:5114".to_owned(), available_auth_types: Vec::new() }
    }
}

} // verus!
