//! One run of the controller carries out one operation. What is settled here
//! is the order of its steps: the two files are read, the operation is
//! chosen and handed out, a registry that the operation may have changed is
//! written back, and after a registration the marker of the legacy pull mode
//! is cleared. Files, the marker and the operations themselves are the
//! caller's: each step here takes the result of the step before.

use crate::config::{Config, ConfigView, RegistrationArgs, RegistrationState};
use crate::format::{ParseError, SaveError, read_config, read_registry, saved};
use vstd::prelude::*;

verus! {

/// What the user asks for.
#[derive(Clone, Debug, PartialEq, Eq)]
pub enum Mode {
    Register(RegistrationArgs),
    RegisterSurrogatePull(RegistrationArgs),
    Push,
    Pull { port: Option<String> },
    Daemon { port: Option<String> },
    Dump,
    Status { json: bool },
    Delete { connection: String },
    DeleteAll,
    Import,
}

/// The operation to carry out, with what it needs beyond the registry.
#[derive(Clone, Debug, PartialEq, Eq)]
pub enum Operation {
    /// Register with the configuration that is in effect; appends to the
    /// registry.
    Register { config: Config },
    /// Register for a host that this one stands in for; leaves the registry
    /// as it is.
    RegisterSurrogatePull { config: Config },
    Push,
    Pull { port: String },
    Daemon { port: String },
    Dump,
    Status { json: bool },
    /// Remove the connection named; changes the registry.
    Delete { connection: String },
    /// Remove every connection; changes the registry.
    DeleteAll,
    /// Take a connection in from a description; changes the registry.
    Import,
}

/// Why the registry was not written back.
#[derive(Debug, PartialEq, Eq)]
pub enum PersistFailure<E> {
    /// The registry could not be put into text.
    Render(SaveError),
    /// The text could not be written to the file.
    Write(E),
}

/// Why a run failed. `E` is the caller's error, which is handed back as it
/// came.
#[derive(Debug, PartialEq, Eq)]
pub enum Failure<E> {
    /// The configuration file could not be read.
    ReadConfig(E),
    /// The configuration file does not hold a configuration.
    ParseConfig(ParseError),
    /// The registry file could not be read.
    ReadRegistry(E),
    /// The registry file does not hold a registry.
    ParseRegistry(ParseError),
    /// The operation failed. Where it may have changed the registry, the
    /// registry was written back all the same.
    Operation(E),
    /// The operation succeeded, but the registry was not written back.
    Persist(PersistFailure<E>),
    /// The operation failed, and then the registry was not written back.
    OperationAndPersist { operation: E, persist: PersistFailure<E> },
    /// The registration succeeded and the registry was written back, but the
    /// marker of the legacy pull mode could not be cleared.
    ClearLegacyPullMarker(E),
}

impl<E> Failure<E> {
    /// What is said above the error when the failure is reported, where
    /// anything is: that the registry was being loaded, or that the
    /// registration itself went well.
    pub open spec fn context_text(self) -> Option<Seq<char>> {
        match self {
            Failure::ReadRegistry(_) => Some("Error while loading registered connections."@),
            Failure::ParseRegistry(_) => Some("Error while loading registered connections."@),
            Failure::ClearLegacyPullMarker(_) => Some(
                "Registration successful, but could not delete marker for legacy pull mode"@,
            ),
            _ => None,
        }
    }

    /// What is said above the error when the failure is reported.
    pub fn context(&self) -> (text: Option<&'static str>)
        ensures
            text.deep_view() == self.context_text(),
    {
        match self {
            Failure::ReadRegistry(_) => Some("Error while loading registered connections."),
            Failure::ParseRegistry(_) => Some("Error while loading registered connections."),
            Failure::ClearLegacyPullMarker(_) => Some(
                "Registration successful, but could not delete marker for legacy pull mode",
            ),
            _ => None,
        }
    }
}

/// A run whose files are read and whose operation is chosen.
#[derive(Debug, PartialEq, Eq)]
pub struct Running {
    /// The registry, for the operation to read or change.
    pub registry: RegistrationState,
    /// The operation to carry out.
    pub operation: Operation,
}

/// A run whose registry is being written back.
#[derive(Debug, PartialEq, Eq)]
pub struct Persisting<E> {
    /// Whether the operation was a registration.
    pub registration: bool,
    /// The error of the operation, where it failed.
    pub operation_error: Option<E>,
}

/// What the caller does next.
#[derive(Debug, PartialEq, Eq)]
pub enum Step<E> {
    /// Write `text` to the registry file, and hand the result to
    /// [`Persisting::written`] of `then`.
    WriteRegistry { text: String, then: Persisting<E> },
    /// Clear the marker of the legacy pull mode, and hand the result to
    /// [`marker_cleared`].
    ClearLegacyPullMarker,
    /// Leave, with this outcome.
    Exit(Result<(), Failure<E>>),
}

/// The port in effect: the one asked for, else the default.
pub open spec fn port_in_effect(requested: Option<String>, default_port: String) -> String {
    match requested {
        Some(port) => port,
        None => default_port,
    }
}

impl Mode {
    /// Whether `operation` is the one that the mode asks for, given the
    /// configuration stored on disk and the default port. A registration
    /// works with the stored configuration overridden, field by field, by
    /// what the user gave.
    pub open spec fn selects(
        self,
        stored: ConfigView,
        default_port: String,
        operation: Operation,
    ) -> bool {
        match self {
            Mode::Register(args) => operation matches Operation::Register { config } && config@
                == ConfigView::merge(stored, args.as_config()),
            Mode::RegisterSurrogatePull(args) => operation matches Operation::RegisterSurrogatePull {
                config,
            } && config@ == ConfigView::merge(stored, args.as_config()),
            Mode::Push => operation == Operation::Push,
            Mode::Pull { port } => operation == (Operation::Pull {
                port: port_in_effect(port, default_port),
            }),
            Mode::Daemon { port } => operation == (Operation::Daemon {
                port: port_in_effect(port, default_port),
            }),
            Mode::Dump => operation == Operation::Dump,
            Mode::Status { json } => operation == (Operation::Status { json }),
            Mode::Delete { connection } => operation == (Operation::Delete { connection }),
            Mode::DeleteAll => operation == Operation::DeleteAll,
            Mode::Import => operation == Operation::Import,
        }
    }
}

impl Operation {
    /// Whether the operation may change the registry.
    pub open spec fn mutates(self) -> bool {
        self is Register || self is Delete || self is DeleteAll || self is Import
    }

    /// Whether the operation may change the registry.
    pub fn changes_registry(&self) -> (yes: bool)
        ensures
            yes == self.mutates(),
    {
        match self {
            Operation::Register { .. } => true,
            Operation::Delete { .. } => true,
            Operation::DeleteAll => true,
            Operation::Import => true,
            _ => false,
        }
    }

    /// Whether the operation is a registration that appends to the registry.
    pub fn is_registration(&self) -> (yes: bool)
        ensures
            yes == (self is Register),
    {
        match self {
            Operation::Register { .. } => true,
            _ => false,
        }
    }
}

fn port_or(requested: Option<String>, default_port: String) -> (port: String)
    ensures
        port == port_in_effect(requested, default_port),
{
    match requested {
        Some(port) => port,
        None => default_port,
    }
}

fn select(mode: Mode, stored: Config, default_port: String) -> (operation: Operation)
    ensures
        mode.selects(stored@, default_port, operation),
{
    match mode {
        Mode::Register(args) => Operation::Register {
            config: Config::merge_two_configs(stored, Config::from_args(args)),
        },
        Mode::RegisterSurrogatePull(args) => Operation::RegisterSurrogatePull {
            config: Config::merge_two_configs(stored, Config::from_args(args)),
        },
        Mode::Push => Operation::Push,
        Mode::Pull { port } => Operation::Pull { port: port_or(port, default_port) },
        Mode::Daemon { port } => Operation::Daemon { port: port_or(port, default_port) },
        Mode::Dump => Operation::Dump,
        Mode::Status { json } => Operation::Status { json },
        Mode::Delete { connection } => Operation::Delete { connection },
        Mode::DeleteAll => Operation::DeleteAll,
        Mode::Import => Operation::Import,
    }
}

/// Starts a run from what the caller found on disk. Each file comes as the
/// result of reading it: its text, `None` where there is no such file, or
/// the caller's error. The configuration is looked at first, and where it
/// fails the registry file is not looked at. A missing file is no failure:
/// it stands for the configuration with every field absent, or for the
/// registry without entries. Where both files are good, the run holds the
/// registry and the operation that the mode asks for.
pub fn run_requested_mode<E>(
    mode: Mode,
    config_file: Result<Option<String>, E>,
    registry_file: Result<Option<String>, E>,
    default_port: String,
) -> (started: Result<Running, Failure<E>>)
    ensures
        match config_file {
            Err(error) => started == Err::<Running, Failure<E>>(Failure::ReadConfig(error)),
            Ok(config_text) => match read_config(config_text.deep_view()) {
                Err(defect) => started matches Err(Failure::ParseConfig(error)) && error.defect()
                    == defect,
                Ok(stored) => match registry_file {
                    Err(error) => started == Err::<Running, Failure<E>>(
                        Failure::ReadRegistry(error),
                    ),
                    Ok(registry_text) => match read_registry(registry_text.deep_view()) {
                        Err(defect) => started matches Err(Failure::ParseRegistry(error))
                            && error.defect() == defect,
                        Ok(entries) => started matches Ok(running) && running.registry@ == entries
                            && mode.selects(stored, default_port, running.operation),
                    },
                },
            },
        },
{
    let config_text = match config_file {
        Ok(text) => text,
        Err(error) => {
            return Err(Failure::ReadConfig(error));
        },
    };
    let loaded = match &config_text {
        Some(text) => Config::from_file(Some(text.as_str())),
        None => Config::from_file(None),
    };
    let stored = match loaded {
        Ok(config) => config,
        Err(error) => {
            return Err(Failure::ParseConfig(error));
        },
    };
    let registry_text = match registry_file {
        Ok(text) => text,
        Err(error) => {
            return Err(Failure::ReadRegistry(error));
        },
    };
    let loaded = match &registry_text {
        Some(text) => RegistrationState::from_file(Some(text.as_str())),
        None => RegistrationState::from_file(None),
    };
    let registry = match loaded {
        Ok(registry) => registry,
        Err(error) => {
            return Err(Failure::ParseRegistry(error));
        },
    };
    Ok(Running { registry, operation: select(mode, stored, default_port) })
}

impl Running {
    /// Takes the result of the operation. Where the operation may have
    /// changed the registry, the registry is written back next, whether the
    /// operation succeeded or failed: what it changed before it failed is
    /// kept. Any other operation ends the run with its result, the error
    /// unchanged.
    pub fn operation_done<E>(self, result: Result<(), E>) -> (next: Step<E>)
        ensures
            !self.operation.mutates() ==> next == Step::Exit(
                match result {
                    Ok(_) => Ok(()),
                    Err(error) => Err(Failure::Operation(error)),
                },
            ),
            self.operation.mutates() ==> match saved(self.registry@) {
                Some(written) => next matches Step::WriteRegistry { text, then } && text@ == written
                    && then == (Persisting {
                    registration: self.operation is Register,
                    operation_error: match result {
                        Ok(_) => None,
                        Err(error) => Some(error),
                    },
                }),
                None => match result {
                    Ok(_) => next matches Step::Exit(
                        Err(Failure::Persist(PersistFailure::Render(refused))),
                    ) && refused.explains(self.registry@),
                    Err(error) => next matches Step::Exit(
                        Err(
                            Failure::OperationAndPersist {
                                operation,
                                persist: PersistFailure::Render(refused),
                            },
                        ),
                    ) && operation == error && refused.explains(self.registry@),
                },
            },
    {
        if !self.operation.changes_registry() {
            return Step::Exit(
                match result {
                    Ok(_) => Ok(()),
                    Err(error) => Err(Failure::Operation(error)),
                },
            );
        }
        let registration = self.operation.is_registration();
        match self.registry.to_file() {
            Ok(text) => Step::WriteRegistry {
                text,
                then: Persisting {
                    registration,
                    operation_error: match result {
                        Ok(_) => None,
                        Err(error) => Some(error),
                    },
                },
            },
            Err(refused) => Step::Exit(
                Err(
                    match result {
                        Ok(_) => Failure::Persist(PersistFailure::Render(refused)),
                        Err(operation) => Failure::OperationAndPersist {
                            operation,
                            persist: PersistFailure::Render(refused),
                        },
                    },
                ),
            ),
        }
    }
}

impl<E> Persisting<E> {
    /// Takes the result of writing the registry file. After a registration
    /// that succeeded and was written, the marker of the legacy pull mode is
    /// cleared next. Otherwise the run ends: with the operation's error if it
    /// had one, with the error of the writing if that failed, with both if
    /// both did.
    pub fn written(self, result: Result<(), E>) -> (next: Step<E>)
        ensures
            next == match (self.operation_error, result) {
                (None, Ok(_)) => if self.registration {
                    Step::ClearLegacyPullMarker
                } else {
                    Step::Exit(Ok(()))
                },
                (None, Err(error)) => Step::Exit(
                    Err(Failure::Persist(PersistFailure::Write(error))),
                ),
                (Some(operation), Ok(_)) => Step::Exit(Err(Failure::Operation(operation))),
                (Some(operation), Err(error)) => Step::Exit(
                    Err(
                        Failure::OperationAndPersist {
                            operation,
                            persist: PersistFailure::Write(error),
                        },
                    ),
                ),
            },
    {
        match (self.operation_error, result) {
            (None, Ok(_)) => if self.registration {
                Step::ClearLegacyPullMarker
            } else {
                Step::Exit(Ok(()))
            },
            (None, Err(error)) => Step::Exit(Err(Failure::Persist(PersistFailure::Write(error)))),
            (Some(operation), Ok(_)) => Step::Exit(Err(Failure::Operation(operation))),
            (Some(operation), Err(error)) => Step::Exit(
                Err(
                    Failure::OperationAndPersist {
                        operation,
                        persist: PersistFailure::Write(error),
                    },
                ),
            ),
        }
    }
}

/// Takes the result of clearing the marker of the legacy pull mode, and ends
/// the run. A failure here is reported, but undoes nothing: the registration
/// stands, and the registry stays as it was written.
pub fn marker_cleared<E>(result: Result<(), E>) -> (outcome: Result<(), Failure<E>>)
    ensures
        outcome == match result {
            Ok(_) => Ok::<(), Failure<E>>(()),
            Err(error) => Err(Failure::ClearLegacyPullMarker(error)),
        },
{
    match result {
        Ok(_) => Ok(()),
        Err(error) => Err(Failure::ClearLegacyPullMarker(error)),
    }
}

} // verus!
