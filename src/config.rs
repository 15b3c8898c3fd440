//! Settings of the controller and the agent, and their defaults.
use vstd::prelude::*;
use vstd::string::StringSliceAdditionalSpecFns;

verus! {

/// How much the processes log.
#[derive(Debug, Clone, Copy, PartialEq, Eq, Structural)]
pub enum LogLevel {
    Error,
    Warn,
    Info,
    Debug,
    Trace,
}

/// Settings of the controller's secure endpoint.
#[derive(Debug)]
pub struct ControllerConfig {
    /// The socket address to bind, as `host:port`.
    pub listen: String,
    pub cert_path: String,
    pub key_path: String,
}

/// Settings of an agent.
#[derive(Debug)]
pub struct AgentConfig {
    pub controller_address: String,
    pub cert_path: String,
}

/// All settings.
#[derive(Debug)]
pub struct Config {
    pub controller: ControllerConfig,
    pub agent: AgentConfig,
    pub log_level: LogLevel,
}

/// Command-line arguments of the controller and of the agent: an optional
/// configuration file.
#[derive(Debug)]
pub struct Cli {
    pub config: Option<String>,
}

/// The certificate file an agent uses when its settings name none.
pub fn default_agent_cert_path() -> (r: String)
    ensures
        r@ == "salix.pem"@,
{
    "salix.pem".to_owned()
}

/// The log level used when the settings name none.
pub fn default_config_log_level() -> (r: LogLevel)
    ensures
        r == LogLevel::Info,
{
    LogLevel::Info
}

/// ASCII lower case of one byte; other bytes are kept.
pub open spec fn ascii_lower(c: u8) -> u8 {
    if 0x41 <= c <= 0x5a {
        (c + 0x20) as u8
    } else {
        c
    }
}

/// Whether `name` is `word` up to ASCII case, `word` being lower case.
pub open spec fn same_word(name: Seq<u8>, word: Seq<u8>) -> bool {
    name.len() == word.len() && forall|i: int| 0 <= i < name.len() ==> ascii_lower(#[trigger] name[i]) == word[i]
}

/// The level that a name stands for, in any ASCII case.
pub open spec fn level_named(name: Seq<u8>) -> Option<LogLevel> {
    if same_word(name, seq![0x65u8, 0x72, 0x72, 0x6f, 0x72]) {
        Some(LogLevel::Error)
    } else if same_word(name, seq![0x77u8, 0x61, 0x72, 0x6e]) {
        Some(LogLevel::Warn)
    } else if same_word(name, seq![0x69u8, 0x6e, 0x66, 0x6f]) {
        Some(LogLevel::Info)
    } else if same_word(name, seq![0x64u8, 0x65, 0x62, 0x75, 0x67]) {
        Some(LogLevel::Debug)
    } else if same_word(name, seq![0x74u8, 0x72, 0x61, 0x63, 0x65]) {
        Some(LogLevel::Trace)
    } else {
        None
    }
}

fn is_word(name: &[u8], word: &[u8]) -> (r: bool)
    ensures
        r == same_word(name@, word@),
{
    if name.len() != word.len() {
        return false;
    }
    let mut i: usize = 0;
    while i < name.len()
        invariant
            i <= name@.len(),
            name@.len() == word@.len(),
            forall|j: int| 0 <= j < i ==> ascii_lower(#[trigger] name@[j]) == word@[j],
        decreases name@.len() - i,
    {
        let c = name[i];
        let lower: u8 = if 0x41 <= c && c <= 0x5a {
            c + 0x20
        } else {
            c
        };
        if lower != word[i] {
            return false;
        }
        i = i + 1;
    }
    true
}

/// Reads a log level's name, in any ASCII case: `error`, `warn`, `info`,
/// `debug` or `trace`.
pub fn log_level_from_name(name: &str) -> (r: Option<LogLevel>)
    ensures
        r == level_named(name.spec_bytes()),
{
    let b = name.as_bytes();
    let error: [u8; 5] = [0x65, 0x72, 0x72, 0x6f, 0x72];
    let warn: [u8; 4] = [0x77, 0x61, 0x72, 0x6e];
    let info: [u8; 4] = [0x69, 0x6e, 0x66, 0x6f];
    let debug: [u8; 5] = [0x64, 0x65, 0x62, 0x75, 0x67];
    let trace: [u8; 5] = [0x74, 0x72, 0x61, 0x63, 0x65];
    assert(error@ =~= seq![0x65u8, 0x72, 0x72, 0x6f, 0x72]);
    assert(warn@ =~= seq![0x77u8, 0x61, 0x72, 0x6e]);
    assert(info@ =~= seq![0x69u8, 0x6e, 0x66, 0x6f]);
    assert(debug@ =~= seq![0x64u8, 0x65, 0x62, 0x75, 0x67]);
    assert(trace@ =~= seq![0x74u8, 0x72, 0x61, 0x63, 0x65]);
    if is_word(b, error.as_slice()) {
        Some(LogLevel::Error)
    } else if is_word(b, warn.as_slice()) {
        Some(LogLevel::Warn)
    } else if is_word(b, info.as_slice()) {
        Some(LogLevel::Info)
    } else if is_word(b, debug.as_slice()) {
        Some(LogLevel::Debug)
    } else if is_word(b, trace.as_slice()) {
        Some(LogLevel::Trace)
    } else {
        None
    }
}

/// The auxiliary HTTP listener; it holds no state of its own.
#[derive(Debug)]
pub struct Web {}

impl Web {
    pub fn new() -> (r: Web) {
        Web {}
    }
}

} // verus!
