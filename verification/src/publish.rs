//! Publisher configuration for the event bridge: the output formats and
//! the per-publisher knobs. The publishers themselves write to the outside
//! world and live with the bridge binary.

use vstd::prelude::*;

verus! {

/// How events are rendered.
#[derive(Debug, Clone, Copy, PartialEq, Eq, Structural)]
pub enum OutputFormat {
    Json,
    JsonLines,
    Binary,
    Text,
}

impl OutputFormat {
    /// The format named by a command-line argument.
    pub fn from_name(name: &str) -> (r: Option<OutputFormat>)
        ensures
            name@ == "json"@ ==> r == Some(OutputFormat::Json),
            name@ == "json-lines"@ ==> r == Some(OutputFormat::JsonLines),
            name@ == "binary"@ ==> r == Some(OutputFormat::Binary),
            name@ == "text"@ ==> r == Some(OutputFormat::Text),
            name@ != "json"@ && name@ != "json-lines"@ && name@ != "binary"@ && name@ != "text"@
                ==> r is None,
    {
        proof {
            reveal_strlit("json");
            reveal_strlit("json-lines");
            reveal_strlit("binary");
            reveal_strlit("text");
            assert("json"@ != "json-lines"@) by {
                assert("json"@.len() != "json-lines"@.len());
            }
            assert("json"@ != "text"@ && "json"@ != "binary"@ && "json-lines"@ != "binary"@
                && "json-lines"@ != "text"@ && "binary"@ != "text"@) by {
                assert("json"@.len() == 4 && "text"@.len() == 4 && "binary"@.len() == 6
                    && "json-lines"@.len() == 10);
                assert("json"@[0] != "text"@[0]);
            }
        }
        let nm = String::from_str(name);
        if nm == String::from_str("json") {
            Some(OutputFormat::Json)
        } else if nm == String::from_str("json-lines") {
            Some(OutputFormat::JsonLines)
        } else if nm == String::from_str("binary") {
            Some(OutputFormat::Binary)
        } else if nm == String::from_str("text") {
            Some(OutputFormat::Text)
        } else {
            None
        }
    }
}

/// The knobs of an event publisher.
#[derive(Debug, Clone)]
pub struct PublisherConfig {
    pub topic: String,
    pub rate_limit: u32,
    pub buffer_size: usize,
    pub include_timestamps: bool,
    pub format: OutputFormat,
}

impl Default for PublisherConfig {
    /// The default configuration: the `/rk/events` topic, no rate limit, a
    /// small batch buffer, timestamps on, JSON output.
    fn default() -> (r: PublisherConfig)
        ensures
            r.topic@ == "/rk/events"@,
            r.rate_limit == 0,
            r.buffer_size == 64,
            r.include_timestamps == true,
            r.format == OutputFormat::Json,
    {
        PublisherConfig {
            topic: String::from_str("/rk/events"),
            rate_limit: 0,
            buffer_size: 64,
            include_timestamps: true,
            format: OutputFormat::Json,
        }
    }
}

/// Whether a publish at `now_ns` is allowed under a rate limit of
/// `rate_limit` events per second given the last publish time: the minimum
/// interval in nanoseconds is ten to the ninth over the limit, and a zero
/// limit allows everything.
pub fn rate_limit_allows(rate_limit: u32, last_ns: u64, now_ns: u64) -> (r: bool)
    requires
        now_ns >= last_ns,
    ensures
        rate_limit == 0 ==> r == true,
        rate_limit != 0 ==> r == (now_ns - last_ns >= 1000000000u64 as int / rate_limit as int),
{
    if rate_limit == 0 {
        return true;
    }
    let min_interval = 1000000000u64 / (rate_limit as u64);
    now_ns - last_ns >= min_interval
}

} // verus!
