//! The configuration of the daemon as clients read it: one JSON object with a
//! string for every key.

use crate::domain::text::pairs_view;
use vstd::prelude::*;

verus! {

/// The JSON text of the object that `serde_json` writes for the map collected
/// from `pairs`: every key with its value as a string. A key that is given
/// more than once stands once in the object, with the value given last; the
/// keys stand in the order of the map, not of the pairs.
pub uninterp spec fn json_string_map(pairs: Seq<(Seq<char>, Seq<char>)>) -> Seq<char>;

/// Collects the pairs into a `serde_json::Map` with a `Value::String` for
/// every value, and calls `serde_json::to_string` on the map.
///
/// Trusted: the call succeeds on every list of pairs, and its result is a
/// function of the keys and values alone, in the order given. The keys of the
/// map are strings and so are its values, which the serializer writes into a
/// buffer in memory; neither cause of failure that its documentation names
/// can arise.
#[verifier::external_body]
fn string_map_to_json(pairs: &Vec<(String, String)>) -> (r: Result<String, serde_json::Error>)
    ensures
        r is Ok,
        r matches Ok(text) ==> text@ == json_string_map(pairs_view(pairs@)),
{
    let map: serde_json::Map<String, serde_json::Value> = pairs.iter().map(
        |pair| (pair.0.clone(), serde_json::Value::String(pair.1.clone())),
    ).collect();
    serde_json::to_string(&map)
}

/// The serializer refused the configuration. It does not do so for any list
/// of pairs; the error is what a refusal would become.
#[derive(Clone, Copy, Debug, PartialEq, Eq, Structural)]
pub struct ConfigEncodeError;

/// Writes the configuration, given as pairs of key and value, as the JSON
/// object that answers a configuration request. Every configuration is
/// written.
pub fn get_config(keyvals: &Vec<(String, String)>) -> (r: Result<String, ConfigEncodeError>)
    ensures
        r matches Ok(text) && text@ == json_string_map(pairs_view(keyvals@)),
{
    config_body(string_map_to_json(keyvals))
}

/// Turns what the serializer returned for the configuration into the body of
/// the response: the text as it is, or the library's error in place of the
/// serializer's.
pub fn config_body(encoded: Result<String, serde_json::Error>) -> (r: Result<
    String,
    ConfigEncodeError,
>)
    ensures
        match encoded {
            Ok(text) => r == Ok::<String, ConfigEncodeError>(text),
            Err(_) => r == Err::<String, ConfigEncodeError>(ConfigEncodeError),
        },
{
    match encoded {
        Ok(text) => Ok(text),
        Err(_) => Err(ConfigEncodeError),
    }
}

} // verus!
