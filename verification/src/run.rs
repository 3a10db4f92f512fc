//! How the pages of devices and of the error log map to tabs.

use vstd::prelude::*;

use crate::app::{Tab, TabVariant};

verus! {

/// A page fed by the broker: a device's page, or a fixed one such as the error log.
#[derive(Debug)]
pub enum Device2Tab {
    Dynamic(String),
    Fixed(String),
}

/// The name of a page (its topic).
pub open spec fn page_name(d: Device2Tab) -> Seq<char> {
    match d {
        Device2Tab::Dynamic(name) => name@,
        Device2Tab::Fixed(name) => name@,
    }
}

/// Whether a page is the device page with the given name.
pub open spec fn is_device_page(d: Device2Tab, name: Seq<char>) -> bool {
    d matches Device2Tab::Dynamic(n) && n@ == name
}

/// The tab that shows a page.
pub open spec fn tab_of(d: Device2Tab) -> Tab {
    match d {
        Device2Tab::Dynamic(name) => Tab { name, variant: TabVariant::Dynamic },
        Device2Tab::Fixed(name) => Tab { name, variant: TabVariant::Fixed },
    }
}

impl PartialEq for Device2Tab {
    fn eq(&self, other: &Self) -> (r: bool) {
        match (self, other) {
            (Device2Tab::Dynamic(a), Device2Tab::Dynamic(b)) => a.eq(b),
            (Device2Tab::Fixed(a), Device2Tab::Fixed(b)) => a.eq(b),
            _ => false,
        }
    }
}

impl vstd::std_specs::cmp::PartialEqSpecImpl for Device2Tab {
    open spec fn obeys_eq_spec() -> bool {
        true
    }

    open spec fn eq_spec(&self, other: &Self) -> bool {
        match (*self, *other) {
            (Device2Tab::Dynamic(a), Device2Tab::Dynamic(b)) => a@ == b@,
            (Device2Tab::Fixed(a), Device2Tab::Fixed(b)) => a@ == b@,
            _ => false,
        }
    }
}

impl Clone for Device2Tab {
    fn clone(&self) -> (r: Self)
        ensures
            r == *self,
    {
        match self {
            Device2Tab::Dynamic(name) => Device2Tab::Dynamic(name.clone()),
            Device2Tab::Fixed(name) => Device2Tab::Fixed(name.clone()),
        }
    }
}

impl Device2Tab {
    /// The tab that shows this page.
    pub fn get_tab(self) -> (t: Tab)
        ensures
            t == tab_of(self),
    {
        match self {
            Self::Dynamic(name) => Tab { name, variant: TabVariant::Dynamic },
            Self::Fixed(name) => Tab { name, variant: TabVariant::Fixed },
        }
    }
}

} // verus!
