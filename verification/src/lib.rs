//! Symbol index and reference resolution for PHP sources.

pub mod comment;
pub mod completion;
pub mod db;
pub mod hover;
pub mod indexer;
pub mod laws;
pub mod like;
pub mod location;
pub mod resolver;
pub mod server;
pub mod syntax;
pub mod tables;
pub mod text;
pub mod utils;

use crate::location::Location;
use vstd::prelude::*;

verus! {

/// The kind of a symbol.
#[derive(Debug, Clone, Copy, PartialEq, Eq, Structural)]
pub enum SymbolKind {
    Global,
    Class,
    Method,
    Function,
    Variable,
}

impl Default for SymbolKind {
    fn default() -> (kind: SymbolKind)
        ensures
            kind == SymbolKind::Global,
    {
        SymbolKind::Global
    }
}

/// A symbol by its kind, its name and its place.
#[derive(Debug)]
pub struct Symbol {
    pub kind: SymbolKind,
    pub name: String,
    pub location: Location,
}

/// The root of a project as a client names it.
#[derive(Debug)]
pub struct ProjectRoot {
    /// The path of the directory that the root URI stands for, where there
    /// is a root URI and it stands for one.
    pub file_path: Option<String>,
}

/// Why a project has no path.
#[derive(Debug, Clone, Copy, PartialEq, Eq, Structural)]
pub enum ProjectPathError {
    /// There is no root URI, or it stands for no directory.
    InvalidRootUri,
}

/// What can tell the path of the project it is about.
pub trait ParamsGetProjectPath {
    fn get_project_path(&self) -> Result<String, ProjectPathError>;
}

impl ParamsGetProjectPath for ProjectRoot {
    /// The path of the project, or that its root URI is invalid.
    fn get_project_path(&self) -> (path: Result<String, ProjectPathError>)
        ensures
            match self.file_path {
                Some(p) => path is Ok && path->Ok_0@ == p@,
                None => path == Err::<String, ProjectPathError>(ProjectPathError::InvalidRootUri),
            },
    {
        match &self.file_path {
            Some(path) => Ok(path.clone()),
            None => Err(ProjectPathError::InvalidRootUri),
        }
    }
}

} // verus!
