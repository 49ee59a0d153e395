//! The persisted key-value credential state, as plain records. Each maps
//! one on-disk JSON file that the caller loads fully on read and rewrites
//! wholesale on write; the caller does the file I/O, the records and the
//! cache rules live here.

use vstd::prelude::*;

use crate::recent::RecentDatabase;

verus! {

/// The chat provider's stored key.
pub struct ClaudeConfig {
    pub api_key: Option<String>,
}

/// The other providers' stored keys.
pub struct AiConfig {
    pub openai_api_key: Option<String>,
    pub gemini_api_key: Option<String>,
}

/// The tool session's stored state.
pub struct McpConfig {
    pub api_key: Option<String>,
    pub notion_token: Option<String>,
    pub database_id: Option<String>,
    pub recent_databases: Option<Vec<RecentDatabase>>,
}

impl Default for ClaudeConfig {
    /// An empty record.
    fn default() -> (c: Self)
        ensures
            c.api_key is None,
    {
        ClaudeConfig { api_key: None }
    }
}

impl Default for AiConfig {
    /// An empty record.
    fn default() -> (c: Self)
        ensures
            c.openai_api_key is None,
            c.gemini_api_key is None,
    {
        AiConfig { openai_api_key: None, gemini_api_key: None }
    }
}

impl Default for McpConfig {
    /// An empty record.
    fn default() -> (c: Self)
        ensures
            c.api_key is None,
            c.notion_token is None,
            c.database_id is None,
            c.recent_databases is None,
    {
        McpConfig { api_key: None, notion_token: None, database_id: None, recent_databases: None }
    }
}

/// The in-memory cache of the tool session's credentials: read far more
/// often than written; every write also goes through to disk, which the
/// caller performs.
pub struct Credentials {
    pub notion_token: Option<String>,
    pub database_id: Option<String>,
}

impl Credentials {
    /// An empty cache.
    pub fn new() -> (c: Self)
        ensures
            c.notion_token is None,
            c.database_id is None,
    {
        Credentials { notion_token: None, database_id: None }
    }

    /// Cache the token.
    pub fn set_notion_token(&mut self, token: String)
        ensures
            final(self).notion_token == Some(token),
            final(self).database_id == old(self).database_id,
    {
        self.notion_token = Some(token);
    }

    /// Cache the database id.
    pub fn set_database_id(&mut self, db_id: String)
        ensures
            final(self).database_id == Some(db_id),
            final(self).notion_token == old(self).notion_token,
    {
        self.database_id = Some(db_id);
    }

    /// Adopt the stored token: a stored value replaces the cache and is
    /// handed back; nothing stored leaves the cache as it was.
    pub fn load_notion_token(&mut self, stored: Option<String>) -> (r: Option<String>)
        ensures
            stored matches Some(t) ==> ({
                &&& final(self).notion_token == Some(t)
                &&& r matches Some(x) && x@ == t@
            }),
            stored is None ==> *final(self) == *old(self) && r is None,
            final(self).database_id == old(self).database_id,
    {
        match stored {
            Some(t) => {
                let out = t.clone();
                self.notion_token = Some(t);
                Some(out)
            },
            None => None,
        }
    }

    /// Adopt the stored database id, as `load_notion_token` does the token.
    pub fn load_database_id(&mut self, stored: Option<String>) -> (r: Option<String>)
        ensures
            stored matches Some(d) ==> ({
                &&& final(self).database_id == Some(d)
                &&& r matches Some(x) && x@ == d@
            }),
            stored is None ==> *final(self) == *old(self) && r is None,
            final(self).notion_token == old(self).notion_token,
    {
        match stored {
            Some(d) => {
                let out = d.clone();
                self.database_id = Some(d);
                Some(out)
            },
            None => None,
        }
    }
}

impl Default for Credentials {
    /// The empty cache `new` gives.
    fn default() -> (c: Self)
        ensures
            c.notion_token is None,
            c.database_id is None,
    {
        Credentials::new()
    }
}

} // verus!
