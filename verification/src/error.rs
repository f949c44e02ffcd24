//! The error taxonomy of the command flows. Every fatal condition carries
//! enough context to render a one-line diagnosis; the rendering itself is a
//! verified function of the error value.

use vstd::prelude::*;
use vstd::string::StringSliceAdditionalSpecFns;

use crate::engine::EngineType;
use crate::text::{append_bytes, i32_decimal, spec_decimal, str_bytes};

verus! {

/// A fatal condition of one command invocation.
#[derive(Debug)]
pub enum Error {
    /// The global configuration could not be persisted; carries the
    /// description of the underlying I/O failure.
    ConfigPersistFailure(Vec<u8>),
    /// The project directory holds no project configuration file.
    ProjectConfigMissing,
    /// The project configuration file could not be read as one.
    ProjectConfigInvalid,
    /// The project configuration declares no engine type.
    EngineTypeNotSpecified,
    /// No engine backend exists for the declared engine type.
    UnsupportedEngine(EngineType),
    /// A backend exists, but no executable path is registered for it.
    EngineNotConfigured(EngineType),
    /// The engine's build tool failed; carries the project name and the
    /// tool's exit status, when it exited with one.
    BuildFailure { project: Vec<u8>, status: Option<i32> },
    /// The engine's packaging step failed; distinct from a build failure so
    /// that callers can report which phase broke.
    PackageFailure { project: Vec<u8>, status: Option<i32> },
}

/// The rendering of an optional exit status.
pub open spec fn spec_status_suffix(status: Option<i32>) -> Seq<u8> {
    match status {
        Some(c) => " with exit status ".spec_bytes() + spec_decimal(c as int),
        None => " without an exit status".spec_bytes(),
    }
}

impl Error {
    /// The one-line description of the error, as the command surface prints
    /// it after `Error: `.
    pub open spec fn spec_message(self) -> Seq<u8> {
        match self {
            Error::ConfigPersistFailure(detail) => "failed to save the global configuration: ".spec_bytes() + detail@,
            Error::ProjectConfigMissing => "no project configuration file found in the project directory".spec_bytes(),
            Error::ProjectConfigInvalid => "the project configuration file is malformed".spec_bytes(),
            Error::EngineTypeNotSpecified => "the project configuration does not declare an engine type".spec_bytes(),
            Error::UnsupportedEngine(t) => "no engine backend is available for ".spec_bytes() + t.spec_name(),
            Error::EngineNotConfigured(t) => "no engine path is configured for ".spec_bytes() + t.spec_name() + "; register one with `gph config engine add`".spec_bytes(),
            Error::BuildFailure { project, status } => "build of project '".spec_bytes() + project@ + "' failed".spec_bytes() + spec_status_suffix(status),
            Error::PackageFailure { project, status } => "packaging of project '".spec_bytes() + project@ + "' failed".spec_bytes() + spec_status_suffix(status),
        }
    }

    /// Renders the one-line description of the error.
    pub fn message(&self) -> (r: Vec<u8>)
        ensures
            r@ == self.spec_message(),
    {
        match self {
            Error::ConfigPersistFailure(detail) => {
                let mut m = str_bytes("failed to save the global configuration: ");
                append_bytes(&mut m, detail);
                proof {
                    assert(m@ =~= self.spec_message());
                }
                m
            },
            Error::ProjectConfigMissing => str_bytes(
                "no project configuration file found in the project directory",
            ),
            Error::ProjectConfigInvalid => str_bytes(
                "the project configuration file is malformed",
            ),
            Error::EngineTypeNotSpecified => str_bytes(
                "the project configuration does not declare an engine type",
            ),
            Error::UnsupportedEngine(t) => {
                let mut m = str_bytes("no engine backend is available for ");
                let name = t.name_bytes();
                append_bytes(&mut m, &name);
                proof {
                    assert(m@ =~= self.spec_message());
                }
                m
            },
            Error::EngineNotConfigured(t) => {
                let mut m = str_bytes("no engine path is configured for ");
                let name = t.name_bytes();
                append_bytes(&mut m, &name);
                let hint = str_bytes("; register one with `gph config engine add`");
                append_bytes(&mut m, &hint);
                proof {
                    assert(m@ =~= self.spec_message());
                }
                m
            },
            Error::BuildFailure { project, status } => {
                let mut m = str_bytes("build of project '");
                append_bytes(&mut m, project);
                let tail = str_bytes("' failed");
                append_bytes(&mut m, &tail);
                let suffix = status_suffix(status);
                append_bytes(&mut m, &suffix);
                proof {
                    assert(m@ =~= self.spec_message());
                }
                m
            },
            Error::PackageFailure { project, status } => {
                let mut m = str_bytes("packaging of project '");
                append_bytes(&mut m, project);
                let tail = str_bytes("' failed");
                append_bytes(&mut m, &tail);
                let suffix = status_suffix(status);
                append_bytes(&mut m, &suffix);
                proof {
                    assert(m@ =~= self.spec_message());
                }
                m
            },
        }
    }
}

/// Renders an optional exit status.
fn status_suffix(status: &Option<i32>) -> (r: Vec<u8>)
    ensures
        r@ == spec_status_suffix(*status),
{
    match status {
        Some(c) => {
            let mut m = str_bytes(" with exit status ");
            let d = i32_decimal(*c);
            append_bytes(&mut m, &d);
            proof {
                assert(m@ =~= spec_status_suffix(*status));
            }
            m
        },
        None => str_bytes(" without an exit status"),
    }
}

} // verus!
