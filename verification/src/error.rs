//! Error taxonomy of the pipeline.

use vstd::prelude::*;

verus! {

/// Everything the pipeline can fail with, one variant per failure mode.
///
/// The payload of a variant, where present, is a human-readable detail
/// string; callers that need to distinguish failures match on the variant,
/// never on the text.
#[derive(Debug, Clone, PartialEq, Eq)]
pub enum AppError {
    /// The package path does not exist or does not name a `.deb` archive.
    InvalidPackage,
    /// Unpacking the control member of the archive failed.
    ExtractionFailed(String),
    /// The control metadata carries no `Package` field.
    MissingPackageName,
    /// A requested feature has no entry in the capability snapshot.
    UnsupportedFeature,
    /// The invoking user could not be resolved.
    UserResolutionFailed,
    /// The engine reported a build-level error while building the image.
    BuildFailed(String),
    /// The container engine cannot be reached or probed.
    EngineUnavailable,
    /// An image or container that should exist is absent on the engine.
    NotFound,
    /// A program with the same name is already registered.
    DuplicateProgram(String),
    /// No registered program carries the given name.
    ProgramNotFound(String),
    /// A registry or cache file operation failed, or the registry file
    /// does not hold the persisted format.
    IOFailure(String),
}

impl AppError {
    /// The single-line text [`AppError::message`] renders to.
    pub open spec fn spec_message(&self) -> Seq<char> {
        match self {
            AppError::InvalidPackage => "Input application doesn't exist or is in incorrect format"@,
            AppError::ExtractionFailed(detail) => "Can not parse a package: "@ + detail@,
            AppError::MissingPackageName => "Can not parse an input package"@,
            AppError::UnsupportedFeature => "You have set unavailable feature"@,
            AppError::UserResolutionFailed => "Can not find a current user"@,
            AppError::BuildFailed(detail) => "Failed to build an image: "@ + detail@,
            AppError::EngineUnavailable => "Cannot connect to docker daemon"@,
            AppError::NotFound => "Image or container not found"@,
            AppError::DuplicateProgram(name) => "Program with such name already exists '"@ + name@
                + "'"@,
            AppError::ProgramNotFound(name) => "Can't find a program '"@ + name@ + "'"@,
            AppError::IOFailure(detail) => "IO errors occured: "@ + detail@,
        }
    }

    /// Single-line human-readable rendering of the error.
    pub fn message(&self) -> (r: String)
        ensures
            r@ == self.spec_message(),
    {
        match self {
            AppError::InvalidPackage => String::from_str(
                "Input application doesn't exist or is in incorrect format",
            ),
            AppError::ExtractionFailed(detail) => String::from_str("Can not parse a package: ")
                .concat(detail.as_str()),
            AppError::MissingPackageName => String::from_str("Can not parse an input package"),
            AppError::UnsupportedFeature => String::from_str("You have set unavailable feature"),
            AppError::UserResolutionFailed => String::from_str("Can not find a current user"),
            AppError::BuildFailed(detail) => String::from_str("Failed to build an image: ")
                .concat(detail.as_str()),
            AppError::EngineUnavailable => String::from_str("Cannot connect to docker daemon"),
            AppError::NotFound => String::from_str("Image or container not found"),
            AppError::DuplicateProgram(name) => String::from_str(
                "Program with such name already exists '",
            ).concat(name.as_str()).concat("'"),
            AppError::ProgramNotFound(name) => String::from_str("Can't find a program '").concat(
                name.as_str(),
            ).concat("'"),
            AppError::IOFailure(detail) => String::from_str("IO errors occured: ").concat(
                detail.as_str(),
            ),
        }
    }
}

/// Failures of host probing, kept apart from the pipeline's own errors.
#[derive(Debug, Clone, PartialEq, Eq)]
pub enum SystemError {
    /// The engine's version probe failed: the daemon is unreachable.
    DockerConnection,
}

} // verus!
