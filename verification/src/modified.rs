//! Access to per-frame data only when it changed.

use vstd::prelude::*;
use crate::draw::UiDrawPlan;
use crate::text::FontTextureInfo;

verus! {

/// Data that carries a "modified this frame" flag.
pub trait IfModified<T> {
    /// The data, when it was modified.
    fn if_modified(&self) -> Option<&T>;
}

impl<'a> IfModified<UiDrawPlan> for (bool, &'a UiDrawPlan) {
    fn if_modified(&self) -> (plan: Option<&UiDrawPlan>)
        ensures
            plan == (if self.0 { Some(self.1) } else { None }),
    {
        match self.0 {
            true => Some(self.1),
            false => None,
        }
    }
}

impl<'a> IfModified<FontTextureInfo<'a>> for FontTextureInfo<'a> {
    fn if_modified(&self) -> (info: Option<&FontTextureInfo<'a>>)
        ensures
            info == (if self.modified { Some(self) } else { None }),
    {
        match self.modified {
            true => Some(self),
            false => None,
        }
    }
}

} // verus!
