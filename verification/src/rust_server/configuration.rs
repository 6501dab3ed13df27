//! Server configuration and its defaults. Reading the file is left to the
//! caller; every section and key falls back to the defaults given here.

use vstd::prelude::*;

verus! {

/// Settings of the asynchronous runtime.
#[derive(Debug, Clone, PartialEq, Eq)]
pub struct Runtime {
    pub threads: usize,
    pub thread_name: String,
    pub thread_stack: usize,
}

/// Network settings.
#[derive(Debug, Clone, PartialEq, Eq)]
pub struct Server {
    pub port: u16,
    pub ip: String,
}

/// The whole configuration.
#[derive(Debug, Clone, PartialEq, Eq)]
pub struct Config {
    pub runtime: Runtime,
    pub server: Server,
}

impl Runtime {
    pub fn default_threads() -> (res: usize)
        ensures
            res == 4,
    {
        4
    }

    pub fn default_thread_name() -> (res: String)
        ensures
            res@ == "hana-work"@,
    {
        "hana-work".to_owned()
    }

    pub fn default_thread_stack() -> (res: usize)
        ensures
            res == 3 * 1024 * 1024,
    {
        3 * 1024 * 1024
    }

    /// The runtime section with every key at its default.
    pub fn default_section() -> (res: Runtime)
        ensures
            res.threads == 4,
            res.thread_name@ == "hana-work"@,
            res.thread_stack == 3 * 1024 * 1024,
    {
        Runtime {
            threads: Self::default_threads(),
            thread_name: Self::default_thread_name(),
            thread_stack: Self::default_thread_stack(),
        }
    }
}

impl Server {
    pub fn default_port() -> (res: u16)
        ensures
            res == 9876,
    {
        9876
    }

    pub fn default_ip() -> (res: String)
        ensures
            res@ == "0.0.0.0"@,
    {
        "0.0.0.0".to_owned()
    }
}

impl Default for Server {
    /// The server section with every key at its default.
    fn default() -> (res: Server)
        ensures
            res.port == 9876,
            res.ip@ == "0.0.0.0"@,
    {
        Server { port: Self::default_port(), ip: Self::default_ip() }
    }
}

impl Default for Config {
    /// The configuration of an empty file.
    fn default() -> (res: Config)
        ensures
            res.runtime.threads == 4,
            res.runtime.thread_name@ == "hana-work"@,
            res.runtime.thread_stack == 3 * 1024 * 1024,
            res.server.port == 9876,
            res.server.ip@ == "0.0.0.0"@,
    {
        Config { runtime: Runtime::default_section(), server: Server::default() }
    }
}

} // verus!
