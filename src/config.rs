//! Command-line arguments and the background service's configuration.
use crate::engine::EngineConfig;
use vstd::prelude::*;

verus! {

/// Verbosity of the log.
#[derive(Clone, Copy, Debug, PartialEq, Eq)]
pub enum LogLevel {
    Error,
    Info,
    Debug,
    Trace,
}

/// A subcommand of the command line.
#[derive(Debug)]
pub enum Command {
    /// List the output endpoints.
    List { hdmi_only: bool, show_ids: bool },
    /// Start mirroring.
    Start {
        devices: Option<Vec<String>>,
        exclude: Option<Vec<String>>,
        buffer: u32,
        source: Option<String>,
    },
    /// Show one endpoint.
    Info { device_id: String },
}

impl Default for Command {
    /// Start with every default: display-attached endpoints, 50 ms.
    fn default() -> (r: Command)
        ensures
            r matches Command::Start { devices, exclude, buffer, source } && devices is None
                && exclude is None && buffer == 50 && source is None,
    {
        Command::Start { devices: None, exclude: None, buffer: 50, source: None }
    }
}

/// Parsed command line.
#[derive(Debug)]
pub struct Args {
    /// Subcommand; none means the default one.
    pub command: Option<Command>,
    /// How often the verbose flag was given.
    pub verbose: u8,
    /// Only errors are logged.
    pub quiet: bool,
    /// File to log to.
    pub log: Option<String>,
}

impl Args {
    /// Errors only when quiet; else info, debug, and trace from two verbose
    /// flags on.
    pub open spec fn log_level_spec(&self) -> LogLevel {
        if self.quiet {
            LogLevel::Error
        } else if self.verbose == 0 {
            LogLevel::Info
        } else if self.verbose == 1 {
            LogLevel::Debug
        } else {
            LogLevel::Trace
        }
    }

    /// The log level these flags ask for.
    pub fn log_level(&self) -> (r: LogLevel)
        ensures
            r == self.log_level_spec(),
    {
        if self.quiet {
            LogLevel::Error
        } else {
            match self.verbose {
                0 => LogLevel::Info,
                1 => LogLevel::Debug,
                _ => LogLevel::Trace,
            }
        }
    }
}

/// Engine settings for the start subcommand's options.
pub fn start_config(
    devices: Option<Vec<String>>,
    exclude: Option<Vec<String>>,
    buffer: u32,
    source: Option<String>,
) -> (r: EngineConfig)
    ensures
        r.buffer_ms == buffer,
        r.device_ids == devices,
        r.exclude_ids == exclude,
        r.source_device_id == source,
        r.paused_device_ids is None,
        !r.use_all_devices,
{
    EngineConfig {
        buffer_ms: buffer,
        device_ids: devices,
        exclude_ids: exclude,
        source_device_id: source,
        paused_device_ids: None,
        use_all_devices: false,
    }
}

/// Sample configuration file, with every key at its default.
pub const SAMPLE_CONFIG: &'static str = "# Wemux Service Configuration\n# This file configures the wemux audio sync service\n\n# Audio buffer size in milliseconds (default: 50)\nbuffer_ms = 50\n\n# Specific device IDs to use (empty = auto-detect all HDMI)\n# Example: device_ids = [\"Device1\", \"Device2\"]\ndevice_ids = []\n\n# Device IDs to exclude from auto-detection\n# Example: exclude_ids = [\"SomeDevice\"]\nexclude_ids = []\n\n# Source device ID for loopback capture (empty = system default)\nsource_device_id = \"\"\n\n# Log level: trace, debug, info, warn, error (default: info)\nlog_level = \"info\"\n\n# Log file path (empty = no file logging)\n# Example: log_file = \"C:\\\\ProgramData\\\\wemux\\\\wemux.log\"\nlog_file = \"\"\n";

/// Configuration of the background service.
#[derive(Debug)]
pub struct ServiceConfig {
    /// Host buffer duration, in milliseconds.
    pub buffer_ms: u32,
    /// Allow-list; empty adopts every display-attached endpoint.
    pub device_ids: Vec<String>,
    /// Deny-list.
    pub exclude_ids: Vec<String>,
    /// Capture source; empty means the system default.
    pub source_device_id: String,
    /// Log level name.
    pub log_level: String,
    /// Log file; empty means none.
    pub log_file: String,
}

impl Default for ServiceConfig {
    /// 50 ms buffers, no lists, the system default source, info logging.
    fn default() -> (r: ServiceConfig)
        ensures
            r.buffer_ms == 50,
            r.device_ids@.len() == 0,
            r.exclude_ids@.len() == 0,
            r.source_device_id@.len() == 0,
            r.log_level@ == "info"@,
            r.log_file@.len() == 0,
    {
        ServiceConfig {
            buffer_ms: 50,
            device_ids: Vec::new(),
            exclude_ids: Vec::new(),
            source_device_id: String::new(),
            log_level: "info".to_owned(),
            log_file: String::new(),
        }
    }
}

/// A copy of `v`.
fn copy_strings(v: &Vec<String>) -> (r: Vec<String>)
    ensures
        r@ == v@,
{
    let mut out: Vec<String> = Vec::new();
    let mut i: usize = 0;
    while i < v.len()
        invariant
            0 <= i <= v@.len(),
            out@ == v@.take(i as int),
        decreases v@.len() - i,
    {
        out.push(v[i].clone());
        i = i + 1;
        proof {
            assert(out@ =~= v@.take(i as int));
        }
    }
    proof {
        assert(v@.take(v@.len() as int) =~= v@);
    }
    out
}

impl ServiceConfig {
    /// Engine settings for this configuration: empty lists and an empty
    /// source become absent.
    pub fn to_engine_config(&self) -> (r: EngineConfig)
        ensures
            r.buffer_ms == self.buffer_ms,
            self.device_ids@.len() == 0 ==> r.device_ids is None,
            self.device_ids@.len() > 0 ==> (r.device_ids matches Some(v) && v@ == self.device_ids@),
            self.exclude_ids@.len() == 0 ==> r.exclude_ids is None,
            self.exclude_ids@.len() > 0 ==> (r.exclude_ids matches Some(v) && v@ == self.exclude_ids@),
            self.source_device_id@.len() == 0 ==> r.source_device_id is None,
            self.source_device_id@.len() > 0 ==> r.source_device_id == Some(self.source_device_id),
            r.paused_device_ids is None,
            !r.use_all_devices,
    {
        let device_ids = if self.device_ids.len() == 0 {
            None
        } else {
            let v = copy_strings(&self.device_ids);
            Some(v)
        };
        let exclude_ids = if self.exclude_ids.len() == 0 {
            None
        } else {
            let v = copy_strings(&self.exclude_ids);
            Some(v)
        };
        let source_device_id = if self.source_device_id.unicode_len() == 0 {
            None
        } else {
            Some(self.source_device_id.clone())
        };
        EngineConfig {
            buffer_ms: self.buffer_ms,
            device_ids,
            exclude_ids,
            source_device_id,
            paused_device_ids: None,
            use_all_devices: false,
        }
    }

    /// Text of a sample configuration file.
    pub fn sample_config() -> (r: String)
        ensures
            r@ == SAMPLE_CONFIG@,
    {
        SAMPLE_CONFIG.to_owned()
    }
}

} // verus!
