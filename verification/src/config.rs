//! Supervisor-wide options and the exit status they lead to.

use vstd::prelude::*;

verus! {

/// The options that the supervisor recognises.
#[derive(Clone, Copy, Debug, PartialEq, Eq, Structural)]
pub struct HorustConfig {
    /// Exit unsuccessfully when any service ended in `FinishedFailed`.
    pub unsuccessful_exit_finished_failed: bool,
}

impl Default for HorustConfig {
    fn default() -> (config: Self)
        ensures
            !config.unsuccessful_exit_finished_failed,
    {
        Self { unsuccessful_exit_finished_failed: false }
    }
}

impl HorustConfig {
    /// The options in force when the command line gives `cmd_line` and the
    /// configuration file gives `config_file`: an option is set when either
    /// sets it, so the file can never switch off what the command line asks.
    pub open spec fn merged(cmd_line: HorustConfig, config_file: HorustConfig) -> HorustConfig {
        HorustConfig {
            unsuccessful_exit_finished_failed: cmd_line.unsuccessful_exit_finished_failed
                || config_file.unsuccessful_exit_finished_failed,
        }
    }

    /// Merges the command line with the content of the configuration file; a
    /// file that does not exist counts as one that sets nothing.
    pub fn load_and_merge(cmd_line: HorustConfig, config_file: Option<HorustConfig>) -> (config:
        HorustConfig)
        ensures
            config == (match config_file {
                Some(file) => Self::merged(cmd_line, file),
                None => cmd_line,
            }),
    {
        let config_file = match config_file {
            Some(file) => file,
            None => HorustConfig::default(),
        };
        let unsuccessful_exit_finished_failed = cmd_line.unsuccessful_exit_finished_failed
            || config_file.unsuccessful_exit_finished_failed;
        HorustConfig { unsuccessful_exit_finished_failed }
    }
}

/// How the supervisor itself exits.
#[derive(Clone, Copy, Debug, PartialEq, Eq, Structural)]
pub enum ExitStatus {
    Successful,
    SomeServiceFailed,
}

impl ExitStatus {
    /// The exit status of a supervisor whose services ended as described:
    /// unsuccessful exactly when failures count and some service ended in
    /// `FinishedFailed`.
    pub open spec fn spec_from_outcome(
        config: HorustConfig,
        any_finished_failed: bool,
    ) -> ExitStatus {
        if config.unsuccessful_exit_finished_failed && any_finished_failed {
            ExitStatus::SomeServiceFailed
        } else {
            ExitStatus::Successful
        }
    }

    pub fn from_outcome(config: &HorustConfig, any_finished_failed: bool) -> (status: ExitStatus)
        ensures
            status == Self::spec_from_outcome(*config, any_finished_failed),
    {
        if config.unsuccessful_exit_finished_failed && any_finished_failed {
            ExitStatus::SomeServiceFailed
        } else {
            ExitStatus::Successful
        }
    }

    /// The code handed to the operating system: `0` on success, `1` otherwise.
    pub fn code(self) -> (code: i32)
        ensures
            code == (if self is Successful {
                0i32
            } else {
                1i32
            }),
    {
        match self {
            ExitStatus::Successful => 0,
            ExitStatus::SomeServiceFailed => 1,
        }
    }
}

} // verus!
