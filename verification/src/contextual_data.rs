use vstd::prelude::*;

verus! {

/// Marking and releasing of nested contexts.  A mark opens a new scope; a
/// release drops the scope opened by the matching mark together with
/// everything added inside it.  The root scope is permanent: releasing it is
/// never allowed.
pub trait ContextualData {
    /// The shape the container keeps at all times.
    spec fn inv(&self) -> bool;

    /// Whether a release is allowed: at least one context besides the
    /// permanent root is open.
    spec fn can_release(&self) -> bool;

    /// Open a new context.
    fn mark_context(&mut self)
        requires
            old(self).inv(),
        ensures
            final(self).inv(),
            final(self).can_release(),
    ;

    /// Close the current context, dropping everything added since the
    /// matching mark.
    fn release_context(&mut self)
        requires
            old(self).inv(),
            old(self).can_release(),
        ensures
            final(self).inv(),
    ;
}

} // verus!
