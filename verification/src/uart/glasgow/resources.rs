//! Embedded Glasgow revC UART resources.

use vstd::prelude::*;

use crate::text::same_text;

verus! {

/// One revision-specific embedded gateware resource.
#[derive(Clone, Copy, Debug)]
pub struct GlasgowResource {
    /// Exact board stepping, `C0` through `C3`.
    pub revision: &'static str,
    /// Raw FPGA bitstream.
    pub bitstream: &'static [u8],
    /// UTF-8 JSON manifest that describes this bitstream and its API-9 allocations.
    pub manifest: &'static [u8],
}

/// Whether a revision is a supported revC stepping.
pub open spec fn supported_stepping(revision: Seq<char>) -> bool {
    revision == "C0"@ || revision == "C1"@ || revision == "C2"@ || revision == "C3"@
}

/// Whether a revision is a supported revC stepping.
pub fn is_supported(revision: &str) -> (supported: bool)
    ensures
        supported == supported_stepping(revision@),
{
    same_text(revision, "C0") || same_text(revision, "C1") || same_text(revision, "C2")
        || same_text(revision, "C3")
}

/// Whether `at` is the position of the first resource for a revision.
pub open spec fn first_for(resources: Seq<GlasgowResource>, revision: Seq<char>, at: int) -> bool {
    &&& 0 <= at < resources.len()
    &&& resources[at].revision@ == revision
    &&& forall|i: int| 0 <= i < at ==> (#[trigger] resources[i]).revision@ != revision
}

/// Whether a revision is no supported stepping, or no resource is for it.
pub open spec fn unsupported(resources: Seq<GlasgowResource>, revision: Seq<char>) -> bool {
    !supported_stepping(revision) || forall|i: int| 0 <= i < resources.len() ==> (#[trigger] resources[i]).revision@ != revision
}

/// Select a resource only for an explicitly supported revC stepping.
#[must_use]
pub fn for_revision<'a>(resources: &'a [GlasgowResource], revision: &str) -> (found: Option<
    &'a GlasgowResource,
>)
    ensures
        match found {
            Some(resource) => supported_stepping(revision@) && exists|at: int| #[trigger]
                first_for(resources@, revision@, at) && resources@[at] == *resource,
            None => unsupported(resources@, revision@),
        },
{
    if !is_supported(revision) {
        return None;
    }
    let mut i: usize = 0;
    while i < resources.len()
        invariant
            supported_stepping(revision@),
            i <= resources@.len(),
            forall|k: int| 0 <= k < i ==> (#[trigger] resources@[k]).revision@ != revision@,
        decreases resources@.len() - i,
    {
        if same_text(resources[i].revision, revision) {
            assert(first_for(resources@, revision@, i as int));
            return Some(&resources[i]);
        }
        i = i + 1;
    }
    None
}

}
