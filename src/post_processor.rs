//! What is done to a page once its document is written.
use vstd::prelude::*;
use crate::page_provider::migrated_property;
use crate::text::{push_str, string_of};

verus! {

/// A checkbox property of a page to set.
pub struct CheckboxUpdate {
    pub property: String,
    pub checked: bool,
}

/// Leaves the page as it is.
pub struct DefaultPostProcessor;

impl DefaultPostProcessor {
    /// No update.
    pub fn update(&self) -> (r: Option<CheckboxUpdate>)
        ensures
            r is None,
    {
        None
    }
}

/// Marks the page as migrated.
pub struct MyPostProcessor;

impl MyPostProcessor {
    /// Sets the migrated checkbox.
    pub fn update(&self) -> (r: Option<CheckboxUpdate>)
        ensures
            r matches Some(u) && u.property@ == migrated_property() && u.checked,
    {
        let mut p: Vec<char> = Vec::new();
        push_str(&mut p, "移行済み");
        Some(CheckboxUpdate { property: string_of(p.as_slice()), checked: true })
    }
}

} // verus!
