use vstd::prelude::*;

use crate::error::AppError;

verus! {

/// Where the account store lives and the key to reach it.
#[derive(Debug, Clone)]
pub struct Config {
    pub supabase_url: String,
    pub supabase_key: String,
}

impl Config {
    /// The configuration from the two settings as found; a `Config` error
    /// naming the first one missing.
    pub fn from_values(supabase_url: Option<String>, supabase_key: Option<String>) -> (r: Result<
        Config,
        AppError,
    >)
        ensures
            match (supabase_url, supabase_key) {
                (Some(u), Some(k)) => r matches Ok(c) && c.supabase_url == u && c.supabase_key == k,
                (None, _) => r matches Err(AppError::Config(m)) && m@
                    == "SUPABASE_URL env var not set"@,
                (Some(_), None) => r matches Err(AppError::Config(m)) && m@
                    == "SUPABASE_KEY env var not set"@,
            },
    {
        let url = match supabase_url {
            Some(u) => u,
            None => {
                return Err(AppError::Config(String::from_str("SUPABASE_URL env var not set")));
            },
        };
        let key = match supabase_key {
            Some(k) => k,
            None => {
                return Err(AppError::Config(String::from_str("SUPABASE_KEY env var not set")));
            },
        };
        Ok(Config { supabase_url: url, supabase_key: key })
    }
}

} // verus!
