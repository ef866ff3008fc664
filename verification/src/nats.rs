//! Settings of a snapshot store kept in a NATS key-value bucket.

use vstd::prelude::*;
use vstd::string::*;

verus! {

/// Configuration for a snapshot store in a NATS key-value bucket.
#[derive(Debug)]
pub struct Config {
    server_addr: String,
    bucket: String,
    setup: bool,
}

/// What a [`Config`] holds, as plain values.
pub struct ConfigView {
    /// Address of the NATS server, as `host:port`.
    pub server_addr: Seq<char>,
    /// Name of the key-value bucket that holds the snapshots.
    pub bucket: Seq<char>,
    /// Whether the bucket is to be created when the store is made.
    pub setup: bool,
}

impl View for Config {
    type V = ConfigView;

    closed spec fn view(&self) -> ConfigView {
        ConfigView { server_addr: self.server_addr@, bucket: self.bucket@, setup: self.setup }
    }
}

impl Config {
    /// A configuration with the given values.
    pub fn new(server_addr: String, bucket: String, setup: bool) -> (config: Config)
        ensures
            config@ == (ConfigView { server_addr: server_addr@, bucket: bucket@, setup }),
    {
        Config { server_addr, bucket, setup }
    }

    /// Change the `server_addr`.
    pub fn with_server_addr(self, server_addr: &str) -> (config: Config)
        ensures
            config@ == (ConfigView { server_addr: server_addr@, ..self@ }),
    {
        let server_addr = server_addr.to_owned();
        Config { server_addr, ..self }
    }

    /// Change the `bucket`.
    pub fn with_bucket(self, bucket: &str) -> (config: Config)
        ensures
            config@ == (ConfigView { bucket: bucket@, ..self@ }),
    {
        let bucket = bucket.to_owned();
        Config { bucket, ..self }
    }

    /// Change the `setup` flag.
    pub fn with_setup(self, setup: bool) -> (config: Config)
        ensures
            config@ == (ConfigView { setup, ..self@ }),
    {
        Config { setup, ..self }
    }

    /// The bucket to create when the store is made: the bucket "snapshots"
    /// if the `setup` flag is set, else none.
    pub fn bucket_to_set_up(&self) -> (bucket: Option<String>)
        ensures
            match bucket {
                Some(bucket) => self@.setup && bucket@ == "snapshots"@,
                None => !self@.setup,
            },
    {
        if self.setup {
            Some(bucket_default())
        } else {
            None
        }
    }

    /// Address of the NATS server.
    pub fn server_addr(&self) -> (server_addr: &str)
        ensures
            server_addr@ == self@.server_addr,
    {
        self.server_addr.as_str()
    }

    /// Name of the bucket that holds the snapshots.
    pub fn bucket(&self) -> (bucket: &str)
        ensures
            bucket@ == self@.bucket,
    {
        self.bucket.as_str()
    }

    /// Whether the bucket is to be created when the store is made.
    pub fn setup(&self) -> (setup: bool)
        ensures
            setup == self@.setup,
    {
        self.setup
    }
}

impl Default for Config {
    /// Use "localhost:4222" for `server_addr` and "snapshots" for `bucket`.
    fn default() -> (config: Config)
        ensures
            config@ == (ConfigView {
                server_addr: "localhost:4222"@,
                bucket: "snapshots"@,
                setup: false,
            }),
    {
        Config { server_addr: "localhost:4222".to_owned(), bucket: bucket_default(), setup: false }
    }
}

impl Clone for Config {
    fn clone(&self) -> (config: Config)
        ensures
            config@ == self@,
    {
        Config {
            server_addr: self.server_addr.clone(),
            bucket: self.bucket.clone(),
            setup: self.setup,
        }
    }
}

/// The bucket that a configuration names unless told otherwise: "snapshots".
pub fn bucket_default() -> (bucket: String)
    ensures
        bucket@ == "snapshots"@,
{
    "snapshots".to_owned()
}

} // verus!
