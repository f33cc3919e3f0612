//! The command-line surface as plain data: the option structs the binary
//! fills in and hands to the library's entry points.

use vstd::prelude::*;

verus! {

/// Options of the `server` subcommand.
pub struct ServerCommandConfig {
    /// Location of the root config file.
    pub config_file: String,
    /// The address to listen on, as `ip:port`.
    pub listen_address: String,
}

/// Options of the `convert-har` subcommand.
pub struct ConvertHarCommandConfig {
    /// The input archive file.
    pub har_file: String,
    /// Where the converted files should be created.
    pub dest_directory: String,
}

/// Logging verbosity options.
pub struct LoggingOpts {
    /// How many times verbosity was raised.
    pub debug: u8,
    /// Warnings and above only.
    pub warn: bool,
    /// Errors only.
    pub error: bool,
}

/// Runtime telemetry options.
pub struct RuntimeArgs {
    /// The URL metrics are published to.
    pub otel_collector: String,
}

/// One of the two things the binary can do.
pub enum SubCommands {
    /// Run the mocking server.
    Server(ServerCommandConfig),
    /// Convert an archive into config files.
    ConvertHar(ConvertHarCommandConfig),
}

/// Everything the command line carries.
pub struct Opts {
    /// Logging verbosity.
    pub logging_opts: LoggingOpts,
    /// Telemetry options.
    pub runtime_metrics: RuntimeArgs,
    /// The chosen subcommand.
    pub command: SubCommands,
}

} // verus!
