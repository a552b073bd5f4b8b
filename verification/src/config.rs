//! What a caller configures: where to connect, and how to receive.

use vstd::prelude::*;
use std::time::Duration;

verus! {

/// The length of time that is `secs` whole seconds.
pub uninterp spec fn duration_of_secs(secs: u64) -> Duration;

/// `Duration::from_secs` of std: the length of time of that many seconds,
/// the same for the same number.
pub assume_specification[ Duration::from_secs ](secs: u64) -> (duration: Duration)
    ensures
        duration == duration_of_secs(secs),
;

/// What a `ClientConfig` holds.
pub struct Target {
    pub host: Seq<char>,
    pub port: u16,
    pub path: Seq<char>,
    pub cert: Seq<char>,
    pub key: Seq<char>,
}

/// The endpoint to connect to: a proxy at `host:port`, the path of the tunnel
/// behind it, and the files of the client's certificate and key. An empty
/// file name means that there is none.
#[derive(Clone, Debug)]
pub struct ClientConfig {
    host: String,
    port: u16,
    path: String,
    cert: String,
    key: String,
}

impl View for ClientConfig {
    type V = Target;

    closed spec fn view(&self) -> Target {
        Target {
            host: self.host@,
            port: self.port,
            path: self.path@,
            cert: self.cert@,
            key: self.key@,
        }
    }
}

impl ClientConfig {
    pub fn new(host: &str, port: u16, path: &str, cert: &str, key: &str) -> (config: ClientConfig)
        ensures
            config@ == (Target { host: host@, port, path: path@, cert: cert@, key: key@ }),
    {
        ClientConfig {
            host: host.to_owned(),
            port,
            path: path.to_owned(),
            cert: cert.to_owned(),
            key: key.to_owned(),
        }
    }

    pub fn host(&self) -> (host: &str)
        ensures
            host@ == self@.host,
    {
        self.host.as_str()
    }

    pub fn port(&self) -> (port: u16)
        ensures
            port == self@.port,
    {
        self.port
    }

    pub fn path(&self) -> (path: &str)
        ensures
            path@ == self@.path,
    {
        self.path.as_str()
    }

    pub fn cert(&self) -> (cert: &str)
        ensures
            cert@ == self@.cert,
    {
        self.cert.as_str()
    }

    pub fn key(&self) -> (key: &str)
        ensures
            key@ == self@.key,
    {
        self.key.as_str()
    }

    /// A copy of this configuration, for another attempt to connect.
    pub fn duplicate(&self) -> (copy: ClientConfig)
        ensures
            copy@ == self@,
    {
        ClientConfig {
            host: self.host.clone(),
            port: self.port,
            path: self.path.clone(),
            cert: self.cert.clone(),
            key: self.key.clone(),
        }
    }
}

/// How one receive operation reads.
#[derive(Clone, Copy, Debug)]
pub struct ReceiveOptions {
    channel_buffer_size: usize,
    max_chunk_size: usize,
    read_next_line_duration: Duration,
    should_continue_on_timeout: bool,
}

/// What a `ReceiveOptions` holds.
pub struct Receiving {
    /// How many items may wait for the consumer.
    pub channel_buffer_size: usize,
    /// The most bytes that one read may take from the stream.
    pub max_chunk_size: usize,
    /// How long to wait for the next line.
    pub read_next_line_duration: Duration,
    /// Whether a wait that ran out is followed by another.
    pub should_continue_on_timeout: bool,
}

impl View for ReceiveOptions {
    type V = Receiving;

    closed spec fn view(&self) -> Receiving {
        Receiving {
            channel_buffer_size: self.channel_buffer_size,
            max_chunk_size: self.max_chunk_size,
            read_next_line_duration: self.read_next_line_duration,
            should_continue_on_timeout: self.should_continue_on_timeout,
        }
    }
}

impl ReceiveOptions {
    pub fn new(
        channel_buffer_size: usize,
        max_chunk_size: usize,
        read_next_line_duration: Duration,
        should_continue_on_timeout: bool,
    ) -> (options: ReceiveOptions)
        ensures
            options@ == (Receiving {
                channel_buffer_size,
                max_chunk_size,
                read_next_line_duration,
                should_continue_on_timeout,
            }),
    {
        ReceiveOptions {
            channel_buffer_size,
            max_chunk_size,
            read_next_line_duration,
            should_continue_on_timeout,
        }
    }

    pub fn channel_buffer_size(&self) -> (size: usize)
        ensures
            size == self@.channel_buffer_size,
    {
        self.channel_buffer_size
    }

    pub fn max_chunk_size(&self) -> (size: usize)
        ensures
            size == self@.max_chunk_size,
    {
        self.max_chunk_size
    }

    pub fn read_next_line_duration(&self) -> (duration: Duration)
        ensures
            duration == self@.read_next_line_duration,
    {
        self.read_next_line_duration
    }

    pub fn should_continue_on_timeout(&self) -> (flag: bool)
        ensures
            flag == self@.should_continue_on_timeout,
    {
        self.should_continue_on_timeout
    }
}

impl Default for ReceiveOptions {
    /// Room for 100 items, reads of at most 16384 bytes, ten seconds for
    /// each line, and another wait after one that ran out.
    fn default() -> (options: ReceiveOptions)
        ensures
            options@ == (Receiving {
                channel_buffer_size: 100,
                max_chunk_size: 16384,
                read_next_line_duration: duration_of_secs(10),
                should_continue_on_timeout: true,
            }),
    {
        ReceiveOptions {
            channel_buffer_size: 100,
            max_chunk_size: 16384,
            read_next_line_duration: Duration::from_secs(10),
            should_continue_on_timeout: true,
        }
    }
}

} // verus!
