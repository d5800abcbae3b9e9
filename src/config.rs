use vstd::prelude::*;
use vstd::utf8::encode_utf8;
use crate::decimal::{parse_unsigned, unsigned_value};

verus! {

/// History length used when none is configured.
pub const DEFAULT_HISTORY_LIMIT: usize = 288;

/// Shortest collection interval, in milliseconds.
pub const MIN_INTERVAL_MS: u64 = 1000;

/// Why a configuration could not be built.
pub enum ConfigError {
    /// No API key was given.
    MissingApiKey,
    /// The collection interval could not be read; holds the text given.
    InvalidInterval(String),
    /// The history limit is not a number; holds the text given.
    InvalidHistory(String),
}

/// Settings of the agent. The collection interval is in milliseconds.
pub struct Config {
    api_key: String,
    bind_address: String,
    snapshot_dir: String,
    history_limit: usize,
    collection_interval_ms: u64,
}

/// What a configured history limit reads as: a number no larger than
/// `usize::MAX`, as `str::parse::<usize>` takes it.
pub open spec fn history_limit_value(text: Seq<char>) -> Option<int> {
    unsigned_value(encode_utf8(text), usize::MAX as int)
}

impl ConfigError {
    /// A sentence that describes the error.
    pub fn message(&self) -> (r: String)
        ensures
            r@ == match self {
                ConfigError::MissingApiKey => "SYSTEM_API_KEY is missing - set it in the environment or .env file"@,
                ConfigError::InvalidInterval(v) => "invalid COLLECTION_INTERVAL_SECS value: "@ + v@,
                ConfigError::InvalidHistory(v) => "invalid HISTORY_LIMIT value: "@ + v@,
            },
    {
        match self {
            ConfigError::MissingApiKey => "SYSTEM_API_KEY is missing - set it in the environment or .env file".to_owned(),
            ConfigError::InvalidInterval(v) => {
                let mut s = "invalid COLLECTION_INTERVAL_SECS value: ".to_owned();
                s.append(v.as_str());
                s
            },
            ConfigError::InvalidHistory(v) => {
                let mut s = "invalid HISTORY_LIMIT value: ".to_owned();
                s.append(v.as_str());
                s
            },
        }
    }
}

impl Config {
    /// The collection interval is never shorter than `MIN_INTERVAL_MS`.
    #[verifier::type_invariant]
    spec fn interval_floored(&self) -> bool {
        self.collection_interval_ms >= MIN_INTERVAL_MS
    }

    pub closed spec fn spec_api_key(&self) -> Seq<char> {
        self.api_key@
    }

    pub closed spec fn spec_bind_address(&self) -> Seq<char> {
        self.bind_address@
    }

    pub closed spec fn spec_snapshot_dir(&self) -> Seq<char> {
        self.snapshot_dir@
    }

    pub closed spec fn spec_history_limit(&self) -> usize {
        self.history_limit
    }

    pub closed spec fn spec_collection_interval_ms(&self) -> u64 {
        self.collection_interval_ms
    }

    /// A configuration with the given settings; the collection interval is
    /// raised to `MIN_INTERVAL_MS` where it is shorter.
    pub fn new(
        api_key: String,
        bind_address: String,
        snapshot_dir: String,
        history_limit: usize,
        collection_interval_ms: u64,
    ) -> (r: Config)
        ensures
            r.spec_api_key() == api_key@,
            r.spec_bind_address() == bind_address@,
            r.spec_snapshot_dir() == snapshot_dir@,
            r.spec_history_limit() == history_limit,
            r.spec_collection_interval_ms() == if collection_interval_ms < MIN_INTERVAL_MS {
                MIN_INTERVAL_MS
            } else {
                collection_interval_ms
            },
    {
        let interval = if collection_interval_ms < MIN_INTERVAL_MS {
            MIN_INTERVAL_MS
        } else {
            collection_interval_ms
        };
        Config { api_key, bind_address, snapshot_dir, history_limit, collection_interval_ms: interval }
    }

    /// Builds the configuration from the settings as they were given, each
    /// absent where it was not set. The API key is required; the bind
    /// address defaults to `127.0.0.1:7000`, the snapshot directory to
    /// `data/snapshots` and the history limit to `DEFAULT_HISTORY_LIMIT`. The
    /// collection interval comes already read, or as the text that could not
    /// be read. Errors are reported in that order: key, interval, history.
    pub fn from_values(
        api_key: Option<String>,
        bind_address: Option<String>,
        snapshot_dir: Option<String>,
        collection_interval_ms: Result<u64, String>,
        history_limit: Option<String>,
    ) -> (r: Result<Config, ConfigError>)
        ensures
            api_key is None <==> r matches Err(ConfigError::MissingApiKey),
            api_key is Some && collection_interval_ms is Err ==> (r matches Err(
                ConfigError::InvalidInterval(t),
            ) && t@ == collection_interval_ms->Err_0@),
            api_key is Some && collection_interval_ms is Ok && history_limit is Some
                && history_limit_value(history_limit->Some_0@) is None ==> (r matches Err(
                ConfigError::InvalidHistory(t),
            ) && t@ == history_limit->Some_0@),
            r is Ok <==> api_key is Some && collection_interval_ms is Ok && match history_limit {
                Some(h) => history_limit_value(h@) is Some,
                None => true,
            },
            r matches Ok(c) ==> {
                &&& c.spec_api_key() == api_key->Some_0@
                &&& c.spec_bind_address() == match bind_address {
                    Some(b) => b@,
                    None => "127.0.0.1:7000"@,
                }
                &&& c.spec_snapshot_dir() == match snapshot_dir {
                    Some(d) => d@,
                    None => "data/snapshots"@,
                }
                &&& c.spec_history_limit() == match history_limit {
                    Some(h) => history_limit_value(h@)->Some_0,
                    None => DEFAULT_HISTORY_LIMIT as int,
                }
                &&& c.spec_collection_interval_ms() == if collection_interval_ms->Ok_0 < MIN_INTERVAL_MS {
                    MIN_INTERVAL_MS
                } else {
                    collection_interval_ms->Ok_0
                }
            },
    {
        let api_key = match api_key {
            Some(k) => k,
            None => return Err(ConfigError::MissingApiKey),
        };
        let bind_address = match bind_address {
            Some(b) => b,
            None => "127.0.0.1:7000".to_owned(),
        };
        let snapshot_dir = match snapshot_dir {
            Some(d) => d,
            None => "data/snapshots".to_owned(),
        };
        let interval = match collection_interval_ms {
            Ok(ms) => ms,
            Err(text) => return Err(ConfigError::InvalidInterval(text)),
        };
        let history = match history_limit {
            Some(text) => {
                let parsed = parse_unsigned(text.as_str().as_bytes(), usize::MAX as u64);
                match parsed {
                    Some(v) => v as usize,
                    None => return Err(ConfigError::InvalidHistory(text)),
                }
            },
            None => DEFAULT_HISTORY_LIMIT,
        };
        Ok(Config::new(api_key, bind_address, snapshot_dir, history, interval))
    }

    /// A copy equal to `self`.
    pub fn duplicate(&self) -> (r: Config)
        ensures
            r == *self,
    {
        proof {
            use_type_invariant(self);
        }
        Config {
            api_key: self.api_key.clone(),
            bind_address: self.bind_address.clone(),
            snapshot_dir: self.snapshot_dir.clone(),
            history_limit: self.history_limit,
            collection_interval_ms: self.collection_interval_ms,
        }
    }

    pub fn api_key(&self) -> (r: &str)
        ensures
            r@ == self.spec_api_key(),
    {
        self.api_key.as_str()
    }

    pub fn bind_address(&self) -> (r: &str)
        ensures
            r@ == self.spec_bind_address(),
    {
        self.bind_address.as_str()
    }

    pub fn snapshot_dir(&self) -> (r: &str)
        ensures
            r@ == self.spec_snapshot_dir(),
    {
        self.snapshot_dir.as_str()
    }

    pub fn history_limit(&self) -> (r: usize)
        ensures
            r == self.spec_history_limit(),
    {
        self.history_limit
    }

    /// The collection interval, in milliseconds.
    pub fn collection_interval(&self) -> (r: u64)
        ensures
            r == self.spec_collection_interval_ms(),
            r >= MIN_INTERVAL_MS,
    {
        proof {
            use_type_invariant(self);
        }
        self.collection_interval_ms
    }
}

} // verus!
