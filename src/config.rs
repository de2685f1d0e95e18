use vstd::prelude::*;

verus! {

/// One external settlement processor: its name and the URL payments are
/// posted to.
#[derive(Clone, Debug)]
pub struct ProcessorConfig {
    pub name: String,
    pub endpoint: String,
}

/// The gateway's configuration. The order of `external_processors` is the
/// round-robin order of failover.
#[derive(Clone, Debug)]
pub struct Config {
    pub listen_port: u16,
    pub database_url: String,
    pub log_level: String,
    pub max_in_flight: usize,
    pub max_wait_millis: usize,
    pub external_processors: Vec<ProcessorConfig>,
}

/// Why a configuration cannot start the gateway.
#[derive(Clone, Copy, Debug, PartialEq, Eq, Structural)]
pub enum ConfigError {
    /// No processor to route payments to.
    NoProcessors,
}

impl Config {
    /// Checks that the gateway can run with this configuration.
    pub fn validate(&self) -> (r: Result<(), ConfigError>)
        ensures
            self.external_processors@.len() == 0 ==> r == Err::<(), ConfigError>(
                ConfigError::NoProcessors,
            ),
            self.external_processors@.len() > 0 ==> r == Ok::<(), ConfigError>(()),
    {
        if self.external_processors.len() == 0 {
            Err(ConfigError::NoProcessors)
        } else {
            Ok(())
        }
    }

    /// The processors' names, in registry order.
    pub fn processor_names(&self) -> (r: Vec<String>)
        ensures
            r@.len() == self.external_processors@.len(),
            forall|i: int|
                0 <= i < r@.len() ==> #[trigger] r@[i]@ == self.external_processors@[i].name@,
    {
        let mut names: Vec<String> = Vec::new();
        let mut i: usize = 0;
        while i < self.external_processors.len()
            invariant
                i <= self.external_processors@.len(),
                names@.len() == i,
                forall|k: int|
                    0 <= k < i ==> #[trigger] names@[k]@ == self.external_processors@[k].name@,
            decreases self.external_processors@.len() - i,
        {
            names.push(self.external_processors[i].name.clone());
            i = i + 1;
        }
        names
    }

    /// The minimum wait, in milliseconds, between polls and between routing
    /// attempts.
    pub fn max_wait(&self) -> (r: u64)
        ensures
            r == self.max_wait_millis,
    {
        self.max_wait_millis as u64
    }
}

} // verus!
