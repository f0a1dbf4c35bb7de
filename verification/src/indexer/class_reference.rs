use vstd::prelude::*;

verus! {

/// The name of the stage for references to classes. References are not
/// indexed: they are resolved in the open buffer, request by request.
#[derive(Debug, Default)]
pub struct ClassReferenceIndexer {}

} // verus!
