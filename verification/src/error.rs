//! The ways in which reading or writing a descriptor can fail.

use vstd::prelude::*;

verus! {

/// Why an operation on a descriptor was abandoned. Every failure is fatal to
/// the operation that met it: no partial result is handed back.
#[derive(Clone, Copy, Debug, PartialEq, Eq, Structural)]
pub enum DescriptorError {
    /// A text is no version.
    Version,
    /// A text is no list of version constraints.
    Constraints,
    /// The interpreter constraint nested in a dependency could not be parsed.
    DependencyPython,
    /// The project's own version could not be parsed.
    ProjectVersion,
    /// The project's interpreter version could not be parsed.
    PythonVersion,
    /// A line that should declare a requirement could not be parsed.
    Requirement,
    /// A folder of a built wheel holds no metadata.
    Metadata,
    /// The file that a new manifest would be written to is already there.
    ManifestExists,
}

impl DescriptorError {
    /// What went wrong, in words.
    pub open spec fn text(self) -> Seq<char> {
        match self {
            DescriptorError::Version => "Problem parsing a version"@,
            DescriptorError::Constraints => "Problem parsing constraints in `pyproject.toml`"@,
            DescriptorError::DependencyPython => "Problem parsing python version in dependency"@,
            DescriptorError::ProjectVersion => "Problem parsing version in `pyproject.toml`"@,
            DescriptorError::PythonVersion => "Problem parsing python version in `pyproject.toml`"@,
            DescriptorError::Requirement => "Problem parsing a requirement"@,
            DescriptorError::Metadata => "Problem reading `METADATA`"@,
            DescriptorError::ManifestExists => "`pyproject.toml` already exists"@,
        }
    }

    /// What went wrong, in words.
    pub fn message(&self) -> (s: &'static str)
        ensures
            s@ == self.text(),
    {
        match self {
            DescriptorError::Version => "Problem parsing a version",
            DescriptorError::Constraints => "Problem parsing constraints in `pyproject.toml`",
            DescriptorError::DependencyPython => "Problem parsing python version in dependency",
            DescriptorError::ProjectVersion => "Problem parsing version in `pyproject.toml`",
            DescriptorError::PythonVersion => "Problem parsing python version in `pyproject.toml`",
            DescriptorError::Requirement => "Problem parsing a requirement",
            DescriptorError::Metadata => "Problem reading `METADATA`",
            DescriptorError::ManifestExists => "`pyproject.toml` already exists",
        }
    }
}

} // verus!
