use vstd::prelude::*;

verus! {

/// Configuration for the TensorDock client: the authorization key and
/// token, and an optional human-readable description of the pair.
/// The key and token are opaque strings; no format is enforced.
#[derive(Debug, PartialEq, Eq)]
pub struct Config {
    /// The authorization key uuid.
    pub key: String,
    /// The authorization token uuid.
    pub token: String,
    /// An optional description describing the purpose of this config /
    /// authorization set.
    pub description: Option<String>,
}

/// The view of an optional string: the character sequence it holds, if any.
pub open spec fn opt_str_view(o: Option<String>) -> Option<Seq<char>> {
    match o {
        Some(s) => Some(s@),
        None => None,
    }
}

impl Config {
    /// Start building a `Config` with no field set.
    pub fn builder() -> (r: ConfigBuilder)
        ensures
            r.key_set() is None,
            r.token_set() is None,
            r.description_set() is None,
    {
        ConfigBuilder { key: None, token: None, description: None }
    }
}

/// Utility struct used in intermediary construction of a `Config` via the
/// builder creational pattern. Each setter consumes the builder and returns
/// a new one with that field set; `build` substitutes the empty string for
/// a key or token left unset, while a description left unset stays absent.
pub struct ConfigBuilder {
    key: Option<String>,
    token: Option<String>,
    description: Option<String>,
}

impl ConfigBuilder {
    /// The key accumulated so far, if set.
    pub closed spec fn key_set(self) -> Option<Seq<char>> {
        opt_str_view(self.key)
    }

    /// The token accumulated so far, if set.
    pub closed spec fn token_set(self) -> Option<Seq<char>> {
        opt_str_view(self.token)
    }

    /// The description accumulated so far, if set.
    pub closed spec fn description_set(self) -> Option<Seq<char>> {
        opt_str_view(self.description)
    }

    /// Produces a new `ConfigBuilder` with the `key` field set.
    pub fn key(self, key: String) -> (r: Self)
        ensures
            r.key_set() == Some(key@),
            r.token_set() == self.token_set(),
            r.description_set() == self.description_set(),
    {
        Self { key: Some(key), ..self }
    }

    /// Produces a new `ConfigBuilder` with the `token` field set.
    pub fn token(self, token: String) -> (r: Self)
        ensures
            r.token_set() == Some(token@),
            r.key_set() == self.key_set(),
            r.description_set() == self.description_set(),
    {
        Self { token: Some(token), ..self }
    }

    /// Produces a new `ConfigBuilder` with the `description` field set.
    pub fn description(self, description: String) -> (r: Self)
        ensures
            r.description_set() == Some(description@),
            r.key_set() == self.key_set(),
            r.token_set() == self.token_set(),
    {
        Self { description: Some(description), ..self }
    }

    /// Build the `ConfigBuilder`, producing a `Config`, and assigning empty
    /// string values to the `key` and `token` values if not set.
    pub fn build(self) -> (r: Config)
        ensures
            self.key_set() matches Some(k) ==> r.key@ == k,
            self.key_set() is None ==> r.key@ == Seq::<char>::empty(),
            self.token_set() matches Some(t) ==> r.token@ == t,
            self.token_set() is None ==> r.token@ == Seq::<char>::empty(),
            opt_str_view(r.description) == self.description_set(),
    {
        Config {
            key: match self.key {
                Some(k) => k,
                None => String::new(),
            },
            token: match self.token {
                Some(t) => t,
                None => String::new(),
            },
            description: self.description,
        }
    }
}

} // verus!
