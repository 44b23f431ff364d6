//! Tool configuration files: a JSON object that maps tool names to the
//! endpoints of the servers that provide them.
use vstd::prelude::*;

verus! {

/// The entries of the JSON object of strings that `text` holds, in key
/// order; `None` when `text` holds no such object.
pub uninterp spec fn json_string_map(text: Seq<char>) -> Option<Seq<(Seq<char>, Seq<char>)>>;

/// The models of a sequence of pairs of strings.
pub open spec fn pair_models(v: Seq<(String, String)>) -> Seq<(Seq<char>, Seq<char>)> {
    v.map_values(|p: (String, String)| (p.0@, p.1@))
}

/// Relies on `serde_json::from_str` into a `BTreeMap<String, String>`: it
/// succeeds exactly on the text of a JSON object whose values are all
/// strings (a repeated key keeps its last value), and the map's entries
/// come out in key order. The error is serde_json's message.
#[verifier::external_body]
fn parse_string_map(text: &str) -> (r: Result<Vec<(String, String)>, String>)
    ensures
        match r {
            Ok(v) => json_string_map(text@) == Some(pair_models(v@)),
            Err(_) => json_string_map(text@) is None,
        },
{
    serde_json::from_str::<std::collections::BTreeMap<String, String>>(text)
        .map(|m| m.into_iter().collect())
        .map_err(|e| e.to_string())
}

/// Why a configuration file was refused.
#[derive(Debug, PartialEq)]
pub enum ConfigError {
    /// The text is no JSON object of strings; serde_json's message.
    Malformed(String),
}

/// The tool names and endpoint addresses that a configuration file lists,
/// in name order.
pub fn tool_endpoints(text: &str) -> (r: Result<Vec<(String, String)>, ConfigError>)
    ensures
        match r {
            Ok(v) => json_string_map(text@) == Some(pair_models(v@)),
            Err(ConfigError::Malformed(_)) => json_string_map(text@) is None,
        },
{
    match parse_string_map(text) {
        Ok(v) => Ok(v),
        Err(m) => Err(ConfigError::Malformed(m)),
    }
}

} // verus!
