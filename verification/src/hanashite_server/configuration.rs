//! Server configuration and its defaults. Reading the file is left to the
//! caller; every section and key falls back to the defaults given here.

use vstd::prelude::*;

verus! {

/// Settings of the asynchronous runtime.
#[derive(Debug, Clone, PartialEq, Eq)]
pub struct Runtime {
    pub threads: usize,
    pub thread_name: String,
    pub thread_stack: usize,
}

/// Network settings.
#[derive(Debug, Clone, PartialEq, Eq)]
pub struct Server {
    pub tcp_port: u16,
    pub tcp_bind_ip: String,
    pub udp_port: u16,
    pub udp_bind_ip: String,
    pub udp_buffer: usize,
}

/// The most detailed kind of log event that is recorded.
#[derive(Debug, Clone, Copy, PartialEq, Eq)]
pub enum LevelFilter {
    Off,
    Error,
    Warn,
    Info,
    Debug,
    Trace,
}

/// Logging settings.
#[derive(Debug, Clone, PartialEq, Eq)]
pub struct Logging {
    pub level: LevelFilter,
}

/// The whole configuration.
#[derive(Debug, Clone, PartialEq, Eq)]
pub struct Config {
    pub runtime: Runtime,
    pub server: Server,
    pub logging: Logging,
}

impl Runtime {
    pub fn default_threads() -> (res: usize)
        ensures
            res == 4,
    {
        4
    }

    pub fn default_thread_name() -> (res: String)
        ensures
            res@ == "hana-work"@,
    {
        "hana-work".to_owned()
    }

    pub fn default_thread_stack() -> (res: usize)
        ensures
            res == 3 * 1024 * 1024,
    {
        3 * 1024 * 1024
    }

    /// The runtime section with every key at its default.
    pub fn default_section() -> (res: Runtime)
        ensures
            res.threads == 4,
            res.thread_name@ == "hana-work"@,
            res.thread_stack == 3 * 1024 * 1024,
    {
        Runtime {
            threads: Self::default_threads(),
            thread_name: Self::default_thread_name(),
            thread_stack: Self::default_thread_stack(),
        }
    }
}

impl Server {
    pub fn default_tcp_port() -> (res: u16)
        ensures
            res == 9876,
    {
        9876
    }

    pub fn default_tcp_bind_ip() -> (res: String)
        ensures
            res@ == "0.0.0.0"@,
    {
        "0.0.0.0".to_owned()
    }

    pub fn default_udp_port() -> (res: u16)
        ensures
            res == 9876,
    {
        9876
    }

    pub fn default_udp_bind_ip() -> (res: String)
        ensures
            res@ == "0.0.0.0"@,
    {
        "0.0.0.0".to_owned()
    }

    /// The default UDP buffer size: the expression `2 ^ 16`, which is the
    /// bitwise exclusive or of 2 and 16, that is 18.
    pub fn default_udp_buffer() -> (res: usize)
        ensures
            res == 18,
    {
        let r: usize = 2usize ^ 16usize;
        assert(2usize ^ 16usize == 18usize) by (bit_vector);
        r
    }
}

impl Default for Server {
    /// The server section with every key at its default.
    fn default() -> (res: Server)
        ensures
            res.tcp_port == 9876,
            res.tcp_bind_ip@ == "0.0.0.0"@,
            res.udp_port == 9876,
            res.udp_bind_ip@ == "0.0.0.0"@,
            res.udp_buffer == 18,
    {
        Server {
            tcp_port: Self::default_tcp_port(),
            tcp_bind_ip: Self::default_tcp_bind_ip(),
            udp_port: Self::default_udp_port(),
            udp_bind_ip: Self::default_udp_bind_ip(),
            udp_buffer: Self::default_udp_buffer(),
        }
    }
}

/// Whether `name` is one of the level names of the configuration file.
pub open spec fn is_level_name(name: Seq<char>) -> bool {
    name == "All"@ || name == "Trace"@ || name == "Debug"@ || name == "Info"@ || name == "Warn"@
        || name == "Error"@
}

/// The filter a level name of the configuration file stands for; "All"
/// switches logging off.
pub open spec fn level_for_name(name: Seq<char>) -> LevelFilter {
    if name == "All"@ {
        LevelFilter::Off
    } else if name == "Trace"@ {
        LevelFilter::Trace
    } else if name == "Debug"@ {
        LevelFilter::Debug
    } else if name == "Info"@ {
        LevelFilter::Info
    } else if name == "Warn"@ {
        LevelFilter::Warn
    } else {
        LevelFilter::Error
    }
}

impl Logging {
    pub fn default_level() -> (res: LevelFilter)
        ensures
            res == LevelFilter::Trace,
    {
        LevelFilter::Trace
    }

    /// The filter for a level name read from the configuration file. Any
    /// other name is a fatal configuration error, so it is not accepted here.
    pub fn deserialize_filter(level: &String) -> (res: LevelFilter)
        requires
            is_level_name(level@),
        ensures
            res == level_for_name(level@),
    {
        if *level == "All".to_owned() {
            LevelFilter::Off
        } else if *level == "Trace".to_owned() {
            LevelFilter::Trace
        } else if *level == "Debug".to_owned() {
            LevelFilter::Debug
        } else if *level == "Info".to_owned() {
            LevelFilter::Info
        } else if *level == "Warn".to_owned() {
            LevelFilter::Warn
        } else {
            LevelFilter::Error
        }
    }

    /// The logging section with every key at its default.
    pub fn default_section() -> (res: Logging)
        ensures
            res.level == LevelFilter::Trace,
    {
        Logging { level: Self::default_level() }
    }
}

/// The configuration of an empty file: every section at its defaults.
pub fn default() -> (res: Box<Config>)
    ensures
        res.runtime.threads == 4,
        res.runtime.thread_name@ == "hana-work"@,
        res.runtime.thread_stack == 3 * 1024 * 1024,
        res.server.tcp_port == 9876,
        res.server.tcp_bind_ip@ == "0.0.0.0"@,
        res.server.udp_port == 9876,
        res.server.udp_bind_ip@ == "0.0.0.0"@,
        res.server.udp_buffer == 18,
        res.logging.level == LevelFilter::Trace,
{
    Box::new(Config {
        runtime: Runtime::default_section(),
        server: Server::default(),
        logging: Logging::default_section(),
    })
}

} // verus!
