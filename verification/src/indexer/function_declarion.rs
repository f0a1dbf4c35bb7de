use vstd::prelude::*;

verus! {

/// The name of the stage for methods. Methods are indexed with their
/// classes, by the stage for class declarations.
#[derive(Debug, Default)]
pub struct FunctionDeclarationIndexer {}

} // verus!
