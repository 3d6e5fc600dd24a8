//! The mod list's filter panel: the status and server-update choices, each
//! one of two options or neither, and the version checker's seven toggles
//! with the heading that sets or clears them all.

use vstd::prelude::*;

verus! {

/// The filters the panel turns on and off in the mod list.
#[derive(Debug, Clone, Copy, PartialEq, Eq, Structural)]
pub enum Filters {
    Enabled,
    Disabled,
    UpToDate,
    Major,
    Minor,
    Patch,
    Unimplemented,
    Error,
    Discrepancy,
    AutoUpdateAvailable,
    AutoUpdateUnsupported,
}

/// How a heading's check box looks.
#[derive(Debug, Clone, Copy, PartialEq, Eq, Structural)]
pub enum CheckBox {
    Filled,
    Indeterminate,
    Empty,
}

/// A choice between two options or neither: clicking the chosen option
/// clears the choice, clicking the other one chooses it.
pub fn choice_clicked(current: Option<bool>, option: bool) -> (r: Option<bool>)
    ensures
        r == (if current == Some(option) {
            None::<bool>
        } else {
            Some(option)
        }),
{
    match current {
        Some(c) => if c == option {
            None
        } else {
            Some(option)
        },
        None => Some(option),
    }
}

/// The filter updates sent when the status choice changes: choosing
/// "Disabled" hides the enabled mods, choosing "Enabled" the disabled ones.
pub fn status_updates(choice: Option<bool>) -> (r: Vec<(Filters, bool)>)
    ensures
        r@ == seq![(Filters::Enabled, choice == Some(false)), (Filters::Disabled, choice == Some(true))],
{
    let hide_enabled = match choice {
        Some(c) => !c,
        None => false,
    };
    let hide_disabled = match choice {
        Some(c) => c,
        None => false,
    };
    let mut r: Vec<(Filters, bool)> = Vec::new();
    r.push((Filters::Enabled, hide_enabled));
    r.push((Filters::Disabled, hide_disabled));
    r
}

/// The filter updates sent when the server-update choice changes.
pub fn server_updates(choice: Option<bool>) -> (r: Vec<(Filters, bool)>)
    ensures
        r@ == seq![
            (Filters::AutoUpdateAvailable, choice == Some(true)),
            (Filters::AutoUpdateUnsupported, choice == Some(false)),
        ],
{
    let supported = match choice {
        Some(c) => c,
        None => false,
    };
    let unsupported = match choice {
        Some(c) => !c,
        None => false,
    };
    let mut r: Vec<(Filters, bool)> = Vec::new();
    r.push((Filters::AutoUpdateAvailable, supported));
    r.push((Filters::AutoUpdateUnsupported, unsupported));
    r
}

/// The version checker's toggles, one per update state.
#[derive(Debug, Clone, Copy, PartialEq, Eq, Structural)]
pub struct VersionCheckerFilter {
    pub none: bool,
    pub major: bool,
    pub minor: bool,
    pub patch: bool,
    pub unimplemented: bool,
    pub error: bool,
    pub local_exceeds: bool,
}

impl Default for VersionCheckerFilter {
    /// Every toggle off.
    fn default() -> (r: Self)
        ensures
            r == Self::uniform(false),
    {
        VersionCheckerFilter {
            none: false,
            major: false,
            minor: false,
            patch: false,
            unimplemented: false,
            error: false,
            local_exceeds: false,
        }
    }
}

/// The version checker's filters, in the order the panel lists them.
pub open spec fn version_filters() -> Seq<Filters> {
    seq![
        Filters::UpToDate,
        Filters::Major,
        Filters::Minor,
        Filters::Patch,
        Filters::Unimplemented,
        Filters::Error,
        Filters::Discrepancy,
    ]
}

impl VersionCheckerFilter {
    /// Every toggle is on.
    pub open spec fn spec_all(self) -> bool {
        self.none && self.major && self.minor && self.patch && self.unimplemented && self.error && self.local_exceeds
    }

    /// Some toggle is on.
    pub open spec fn spec_any(self) -> bool {
        self.none || self.major || self.minor || self.patch || self.unimplemented || self.error || self.local_exceeds
    }

    /// The toggle of a version checker filter; `None` for the other filters.
    pub open spec fn spec_toggle(self, f: Filters) -> Option<bool> {
        match f {
            Filters::UpToDate => Some(self.none),
            Filters::Major => Some(self.major),
            Filters::Minor => Some(self.minor),
            Filters::Patch => Some(self.patch),
            Filters::Unimplemented => Some(self.unimplemented),
            Filters::Error => Some(self.error),
            Filters::Discrepancy => Some(self.local_exceeds),
            _ => None,
        }
    }

    /// Every toggle set to `on`.
    pub open spec fn uniform(on: bool) -> Self {
        VersionCheckerFilter {
            none: on,
            major: on,
            minor: on,
            patch: on,
            unimplemented: on,
            error: on,
            local_exceeds: on,
        }
    }

    /// Whether every toggle is on.
    pub fn all(&self) -> (r: bool)
        ensures
            r == self.spec_all(),
    {
        self.none && self.major && self.minor && self.patch && self.unimplemented && self.error && self.local_exceeds
    }

    /// Whether some toggle is on.
    pub fn any(&self) -> (r: bool)
        ensures
            r == self.spec_any(),
    {
        self.none || self.major || self.minor || self.patch || self.unimplemented || self.error || self.local_exceeds
    }

    /// The heading's check box: filled when all are on, half when some are.
    pub fn heading_box(&self) -> (r: CheckBox)
        ensures
            r == (if self.spec_all() {
                CheckBox::Filled
            } else if self.spec_any() {
                CheckBox::Indeterminate
            } else {
                CheckBox::Empty
            }),
    {
        if self.all() {
            CheckBox::Filled
        } else if self.any() {
            CheckBox::Indeterminate
        } else {
            CheckBox::Empty
        }
    }

    /// A click on the heading: when any toggle is on all are cleared,
    /// otherwise all are set; every version checker filter is then sent with
    /// the new setting.
    pub fn heading_clicked(&mut self) -> (r: Vec<(Filters, bool)>)
        ensures
            *final(self) == Self::uniform(!old(self).spec_any()),
            r@.len() == 7,
            forall|i: int| 0 <= i < 7 ==> (#[trigger] r@[i]) == (version_filters()[i], !old(self).spec_any()),
    {
        let enable = !self.any();
        *self = VersionCheckerFilter {
            none: enable,
            major: enable,
            minor: enable,
            patch: enable,
            unimplemented: enable,
            error: enable,
            local_exceeds: enable,
        };
        let mut r: Vec<(Filters, bool)> = Vec::new();
        r.push((Filters::UpToDate, enable));
        r.push((Filters::Major, enable));
        r.push((Filters::Minor, enable));
        r.push((Filters::Patch, enable));
        r.push((Filters::Unimplemented, enable));
        r.push((Filters::Error, enable));
        r.push((Filters::Discrepancy, enable));
        r
    }

    /// A click on one option: its toggle flips and the filter is sent with
    /// its new setting; a filter that is not the version checker's changes
    /// nothing.
    pub fn option_clicked(&mut self, f: Filters) -> (r: Option<(Filters, bool)>)
        ensures
            match old(self).spec_toggle(f) {
                Some(b) => r == Some((f, !b)) && final(self).spec_toggle(f) == Some(!b) && forall|g: Filters|
                    g != f ==> #[trigger] final(self).spec_toggle(g) == old(self).spec_toggle(g),
                None => r is None && *final(self) == *old(self),
            },
    {
        match f {
            Filters::UpToDate => {
                self.none = !self.none;
                Some((f, self.none))
            },
            Filters::Major => {
                self.major = !self.major;
                Some((f, self.major))
            },
            Filters::Minor => {
                self.minor = !self.minor;
                Some((f, self.minor))
            },
            Filters::Patch => {
                self.patch = !self.patch;
                Some((f, self.patch))
            },
            Filters::Unimplemented => {
                self.unimplemented = !self.unimplemented;
                Some((f, self.unimplemented))
            },
            Filters::Error => {
                self.error = !self.error;
                Some((f, self.error))
            },
            Filters::Discrepancy => {
                self.local_exceeds = !self.local_exceeds;
                Some((f, self.local_exceeds))
            },
            _ => None,
        }
    }
}

} // verus!
