//! Connection settings and topic naming defaults.

use vstd::prelude::*;
use vstd::string::*;

verus! {

/// The broker address used when none is configured.
pub open spec fn default_broker() -> Seq<char> {
    "localhost:9092"@
}

/// Connection settings for the broker.
#[derive(Debug)]
pub struct Config {
    pub kafka_addr: Option<String>,
}

impl Config {
    /// The bootstrap address: the configured one, else `localhost:9092`.
    pub fn bootstrap_servers(&self) -> (r: String)
        ensures
            self.kafka_addr matches Some(a) ==> r@ == a@,
            self.kafka_addr is None ==> r@ == default_broker(),
    {
        match &self.kafka_addr {
            Some(a) => a.clone(),
            None => {
                proof {
                    reveal_strlit("localhost:9092");
                }
                String::from_str("localhost:9092")
            },
        }
    }
}

/// The consistency topic used for `data_topic` when none is named.
pub open spec fn default_consistency_name(data_topic: Seq<char>) -> Seq<char> {
    data_topic + "-data-consistency"@
}

/// The consistency topic: the one named, else `<data_topic>-data-consistency`.
pub fn consistency_topic_name(data_topic: &str, named: Option<String>) -> (r: String)
    ensures
        named matches Some(n) ==> r@ == n@,
        named is None ==> r@ == default_consistency_name(data_topic@),
{
    match named {
        Some(n) => n,
        None => {
            let mut out = String::from_str(data_topic);
            out.append("-data-consistency");
            proof {
                reveal_strlit("-data-consistency");
            }
            out
        },
    }
}

} // verus!
