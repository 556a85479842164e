use vstd::prelude::*;

verus! {

/// serde_json's map type: parsed response objects are maps from field
/// names to JSON values.
#[verifier::external_type_specification]
#[verifier::external_body]
#[verifier::reject_recursive_types(K)]
#[verifier::reject_recursive_types(V)]
pub struct ExMap<K, V>(serde_json::Map<K, V>);

/// serde_json's JSON value type.
#[verifier::external_type_specification]
#[verifier::external_body]
pub struct ExValue(serde_json::Value);

/// A parsed JSON object: what every successful request yields.
pub type JsonObject = serde_json::Map<String, serde_json::Value>;

/// Relies on serde_json::Map::new: makes a new empty map.
#[verifier::external_body]
fn new_json_object() -> (r: JsonObject) {
    serde_json::Map::new()
}

/// The failure an operation reports instead of a parsed object: the
/// request itself failed, or the response was not JSON. Each variant
/// carries the transport's own account of what went wrong.
#[derive(Debug)]
pub enum AlphavantageError {
    InvalidJson(String),
    Network(String),
}

impl AlphavantageError {
    /// The failure as a fixed message.
    pub fn message(&self) -> (r: String)
        ensures
            self is InvalidJson ==> r@ == "could not deserialize into json"@,
            self is Network ==> r@ == "the network request failed"@,
    {
        match self {
            AlphavantageError::InvalidJson(_) => String::from_str(
                "could not deserialize into json",
            ),
            AlphavantageError::Network(_) => String::from_str("the network request failed"),
        }
    }

    /// The transport's own account of the failure.
    pub fn detail(&self) -> (r: &String)
        ensures
            self matches AlphavantageError::InvalidJson(d) ==> r@ == d@,
            self matches AlphavantageError::Network(d) ==> r@ == d@,
    {
        match self {
            AlphavantageError::InvalidJson(d) => d,
            AlphavantageError::Network(d) => d,
        }
    }
}

/// The request capability the emitted operations delegate to: fetching
/// a parsed JSON object for a fully formed URL. Applications implement
/// this for their transport of choice.
pub trait RequestClient: Sized {
    /// Performs the request for the given URL.
    fn get(&self, url: &str) -> Result<JsonObject, AlphavantageError>;

    /// Makes a client with default configuration.
    fn new() -> Self;
}

/// An inert client: it performs no request and yields an empty object,
/// for testing consumers of the generated code.
pub struct MockClient;

impl RequestClient for MockClient {
    fn get(&self, url: &str) -> Result<JsonObject, AlphavantageError> {
        Ok(new_json_object())
    }

    fn new() -> Self {
        MockClient
    }
}

/// A client for the documented API: the stored credential plus the
/// transport the emitted operations delegate to.
pub struct AlphavantageClient<'a, T> {
    pub apikey: &'a str,
    pub client: T,
}

impl<'a, T: RequestClient> AlphavantageClient<'a, T> {
    /// Makes a client from a credential and a transport.
    pub fn new(apikey: &'a str, client: T) -> (r: Self)
        ensures
            r.apikey@ == apikey@,
            r.client == client,
    {
        AlphavantageClient { apikey, client }
    }

    /// Makes a client from a credential alone, with the transport's
    /// default configuration.
    pub fn from_apikey(apikey: &'a str) -> (r: Self)
        ensures
            r.apikey@ == apikey@,
    {
        let client = T::new();
        AlphavantageClient { apikey, client }
    }
}

} // verus!
