//! Per-query intersection context, and the layout-compatible extension
//! wrapper that attaches caller-defined ray-query data to it.
//!
//! The context carries a coherency flag — a scheduling hint for the
//! intersection engine's traversal, with no effect on this layer — and a
//! one-element instance-id stack slot that the engine fills during
//! instanced traversal. The engine guarantees that the context passed to a
//! query is handed unchanged to every callback the query invokes, so a
//! caller may attach arbitrary per-query data through
//! [`IntersectContextExt`] and read it back inside a callback.

use vstd::prelude::*;
use crate::INVALID_ID;

verus! {

/// Coherency hint for a ray query: whether the rays of the query are
/// spatially coherent. Purely a scheduling hint for the engine's parallel
/// traversal, never a correctness requirement.
#[derive(Clone, Copy, Debug, PartialEq, Eq, Structural)]
pub enum IntersectContextFlags {
    Incoherent,
    Coherent,
}

/// Per ray-query intersection context: the coherency flag and the
/// one-element instance-id stack slot. Created per query (or reused across
/// coherent batches) and passed to every callback invoked during that query.
#[derive(Clone, Copy, Debug, PartialEq, Eq, Structural)]
pub struct IntersectContext {
    pub flags: IntersectContextFlags,
    pub inst_id: u32,
}

impl IntersectContext {
    /// Shortcut to create an [`IntersectContext`] with the coherent flag set.
    pub fn coherent() -> (r: IntersectContext)
        ensures
            r == IntersectContext::spec_new(IntersectContextFlags::Coherent),
    {
        IntersectContext::new(IntersectContextFlags::Coherent)
    }

    /// Shortcut to create an [`IntersectContext`] with the incoherent flag
    /// set.
    pub fn incoherent() -> (r: IntersectContext)
        ensures
            r == IntersectContext::spec_new(IntersectContextFlags::Incoherent),
    {
        IntersectContext::new(IntersectContextFlags::Incoherent)
    }

    /// Creates a context with the given flags and an empty instance-id slot.
    pub fn new(flags: IntersectContextFlags) -> (r: IntersectContext)
        ensures
            r == IntersectContext::spec_new(flags),
    {
        IntersectContext { flags, inst_id: INVALID_ID }
    }

    /// The context [`IntersectContext::new`] builds: the given flags, and
    /// the instance-id slot holding the invalid sentinel.
    pub open spec fn spec_new(flags: IntersectContextFlags) -> IntersectContext {
        IntersectContext { flags, inst_id: INVALID_ID }
    }
}

/// Types that carry an [`IntersectContext`] as their layout prefix and may
/// carry trailing extension data after it.
///
/// The plain [`IntersectContext`] implements this with no extension;
/// [`IntersectContextExt`] wraps a context together with caller-defined
/// per-query data. Mutating the base through
/// [`AsIntersectContext::as_mut_context`] leaves the extension untouched —
/// that is stated in its contract.
pub trait AsIntersectContext: Sized {
    type Ext;

    /// The base context this value carries.
    spec fn spec_context(&self) -> IntersectContext;

    /// The trailing extension data, if this value carries any.
    spec fn spec_ext(&self) -> Option<Self::Ext>;

    /// Projects to the base context.
    fn as_context(&self) -> (r: &IntersectContext)
        ensures
            *r == self.spec_context();

    /// Projects to the base context for mutation. Whatever the caller writes
    /// through the returned reference changes the base context alone: the
    /// extension data is left exactly as it was.
    fn as_mut_context(&mut self) -> (r: &mut IntersectContext)
        ensures
            *r == old(self).spec_context(),
            final(self).spec_context() == *final(r),
            final(self).spec_ext() == old(self).spec_ext();

    /// Returns the extension data, or `None` when this value is the bare
    /// base context. `None` is the one representable "no extension" outcome;
    /// it comes in exactly those cases.
    fn as_extended(&self) -> (r: Option<&Self::Ext>)
        ensures
            (match r {
                Some(e) => self.spec_ext() == Some(*e),
                None => self.spec_ext() is None,
            });

    /// Returns the extension data for mutation, or `None` when this value is
    /// the bare base context. Writes through the returned reference change
    /// the extension alone: the base context is left exactly as it was.
    fn as_mut_extended(&mut self) -> (r: Option<&mut Self::Ext>)
        ensures
            (match r {
                Some(e) => old(self).spec_ext() == Some(*e)
                    && final(self).spec_ext() == Some(*final(e))
                    && final(self).spec_context() == old(self).spec_context(),
                None => old(self).spec_ext() is None && *final(self) == *old(self),
            });
}

impl AsIntersectContext for IntersectContext {
    type Ext = ();

    open spec fn spec_context(&self) -> IntersectContext {
        *self
    }

    open spec fn spec_ext(&self) -> Option<()> {
        None
    }

    fn as_context(&self) -> (r: &IntersectContext) {
        self
    }

    fn as_mut_context(&mut self) -> (r: &mut IntersectContext) {
        self
    }

    fn as_extended(&self) -> (r: Option<&()>) {
        None
    }

    fn as_mut_extended(&mut self) -> (r: Option<&mut ()>) {
        None
    }
}

/// An intersection context followed by caller-defined per-query data.
///
/// The base context is the first field, so the record begins with the exact
/// layout the intersection engine expects; the engine hands the whole record
/// unchanged to every callback of the query, which recovers the data through
/// [`AsIntersectContext::as_extended`].
#[derive(Clone, Copy, Debug)]
pub struct IntersectContextExt<E: Sized> {
    pub ctx: IntersectContext,
    pub ext: E,
}

impl<E: Sized> AsIntersectContext for IntersectContextExt<E> {
    type Ext = E;

    open spec fn spec_context(&self) -> IntersectContext {
        self.ctx
    }

    open spec fn spec_ext(&self) -> Option<E> {
        Some(self.ext)
    }

    fn as_context(&self) -> (r: &IntersectContext) {
        &self.ctx
    }

    fn as_mut_context(&mut self) -> (r: &mut IntersectContext) {
        &mut self.ctx
    }

    fn as_extended(&self) -> (r: Option<&E>) {
        Some(&self.ext)
    }

    fn as_mut_extended(&mut self) -> (r: Option<&mut E>) {
        Some(&mut self.ext)
    }
}

impl<E: Sized> IntersectContextExt<E> {
    /// Creates a context with the given flags, carrying `extra` as trailing
    /// per-query data.
    pub fn new(flags: IntersectContextFlags, extra: E) -> (r: IntersectContextExt<E>)
        ensures
            r.ctx == IntersectContext::spec_new(flags),
            r.ext == extra,
    {
        IntersectContextExt { ctx: IntersectContext::new(flags), ext: extra }
    }

    /// Creates a coherent context carrying `extra` as trailing per-query
    /// data.
    pub fn coherent(extra: E) -> (r: IntersectContextExt<E>)
        ensures
            r.ctx == IntersectContext::spec_new(IntersectContextFlags::Coherent),
            r.ext == extra,
    {
        IntersectContextExt { ctx: IntersectContext::coherent(), ext: extra }
    }

    /// Creates an incoherent context carrying `extra` as trailing per-query
    /// data.
    pub fn incoherent(extra: E) -> (r: IntersectContextExt<E>)
        ensures
            r.ctx == IntersectContext::spec_new(IntersectContextFlags::Incoherent),
            r.ext == extra,
    {
        IntersectContextExt { ctx: IntersectContext::incoherent(), ext: extra }
    }
}

} // verus!
