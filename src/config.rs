//! Per-domain settings and the messages that the panels exchange.

use vstd::prelude::*;

verus! {

/// The words a shell would make of a command line, or `None` where its quoting is
/// unbalanced.
pub uninterp spec fn shell_words(line: Seq<char>) -> Option<Seq<Seq<char>>>;

pub open spec fn views_of_words(words: Seq<String>) -> Seq<Seq<char>> {
    Seq::new(words.len(), |i: int| words[i]@)
}

/// Relies on `shlex::split`: `None` on erroneous input, else the words, which depend on
/// the line alone.
#[verifier::external_body]
fn split_shell_words(line: &str) -> (r: Option<Vec<String>>)
    ensures
        r is Some <==> shell_words(line@) is Some,
        r matches Some(words) ==> views_of_words(words@) == shell_words(line@)->Some_0,
{
    shlex::split(line)
}

/// A command line split into its words, as a shell would.
pub struct SerdeCommand(pub Vec<String>);

/// A command line that a shell would not accept.
pub enum CommandError {
    UnbalancedQuoting,
}

impl SerdeCommand {
    /// Splits `line` into words; fails where its quoting is unbalanced.
    pub fn parse(line: &str) -> (r: Result<SerdeCommand, CommandError>)
        ensures
            r is Err <==> shell_words(line@) is None,
            r matches Ok(c) ==> views_of_words(c.0@) == shell_words(line@)->Some_0,
    {
        match split_shell_words(line) {
            Some(words) => Ok(SerdeCommand(words)),
            None => Err(CommandError::UnbalancedQuoting),
        }
    }

    /// The words of the command.
    pub fn parts(&self) -> (r: &Vec<String>)
        ensures
            r@ == self.0@,
    {
        &self.0
    }

    /// Whether the command has no words, and so nothing to run.
    pub fn is_empty(&self) -> (r: bool)
        ensures
            r == (self.0@.len() == 0),
    {
        self.0.len() == 0
    }
}

/// A command line kept as its words, to be written back as one quoted line.
pub struct SerializableCommand(pub Vec<String>);

impl SerializableCommand {
    /// Splits `line` into words; `None` where its quoting is unbalanced.
    pub fn parse(line: &str) -> (r: Option<SerializableCommand>)
        ensures
            r is Some <==> shell_words(line@) is Some,
            r matches Some(c) ==> views_of_words(c.0@) == shell_words(line@)->Some_0,
    {
        match split_shell_words(line) {
            Some(words) => Some(SerializableCommand(words)),
            None => None,
        }
    }

    /// The words of the command.
    pub fn parts(&self) -> (r: &Vec<String>)
        ensures
            r@ == self.0@,
    {
        &self.0
    }
}

/// Settings of the weather panel; intervals in seconds.
pub struct WeatherConfig {
    pub update_interval: u64,
    pub retry_timeout: u64,
    pub openweather_api_key: String,
    pub openweather_city_id: u64,
}

/// Settings of the process list.
pub struct CpuMemoryProcessListConfig {
    pub num_processes: usize,
    pub top_command: SerdeCommand,
}

/// Settings of the CPU and memory panel.
pub struct CpuMemoryConfig {
    pub update_interval: u64,
    pub process_list: CpuMemoryProcessListConfig,
}

/// Settings of the disk panel.
pub struct DiskConfig {
    pub update_interval: u64,
    pub name: String,
    pub device_path: String,
    pub mount_point: String,
}

/// Settings of the GPU panel.
pub struct GpuConfig {
    pub update_interval: u64,
}

/// The rate that fills a network graph.
pub struct NetworkGraphProps {
    pub maximum_bytes_per_sec: u64,
}

/// The two network graphs.
pub struct NetworkGraphContainerProps {
    pub upload: NetworkGraphProps,
    pub download: NetworkGraphProps,
}

/// Settings of the network panel. The interface pattern is a regular expression.
pub struct NetworkConfig {
    pub update_interval: u64,
    pub public_ip_retry_timeout: Option<u64>,
    pub interface_regex: String,
    pub graphs: NetworkGraphContainerProps,
}

/// All settings.
pub struct DogkyConfig {
    pub weather: WeatherConfig,
    pub cpu_memory: CpuMemoryConfig,
    pub disk: DiskConfig,
    pub gpu: GpuConfig,
    pub network: NetworkConfig,
}

impl WeatherConfig {
    /// The cache policy of the weather panel: a value stays fresh for one update
    /// interval.
    pub fn cache_policy(&self) -> (r: crate::cache::CachePolicy)
        ensures
            r.ttl == self.update_interval,
            r.update_interval == self.update_interval,
            r.retry_timeout == self.retry_timeout,
    {
        crate::cache::CachePolicy {
            ttl: self.update_interval,
            update_interval: self.update_interval,
            retry_timeout: self.retry_timeout,
        }
    }
}

} // verus!
