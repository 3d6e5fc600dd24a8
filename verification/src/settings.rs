//! The settings page: the installation folder being entered, the JVM memory
//! sizes being edited, and what each message of the page does to them.

use vstd::prelude::*;

use crate::text::{chars_of, law_i32_format_then_parse, parse_i32, spec_format_i32, spec_parse_i32};
use crate::vmparams::{Unit, VMParams, Value};

verus! {

/// Which size of the parameter file an edit is for.
#[derive(Debug, Clone, Copy, PartialEq, Eq, Structural)]
pub enum VMParamChanged {
    MinRam,
    MaxRam,
    _StackThread,
}

/// The messages of the settings page.
#[derive(Debug, Clone)]
pub enum SettingsMessage {
    InitRoot(Option<String>),
    Close,
    PathChanged(String),
    OpenNativeFilePick,
    OpenNativeMessage,
    InitVMParams(Option<VMParams>),
    VMParamsEditingToggled(bool),
    VMParamChanged(String, VMParamChanged),
    UnitChanged(Unit, VMParamChanged),
    InitUpdateStatus(bool),
    OpenReleases,
}

/// What the page needs done outside before it can go on.
#[derive(Debug, Clone, PartialEq, Eq)]
pub enum SettingsAction {
    /// Nothing.
    Done,
    /// Tell whether this folder exists (see `Settings::path_checked`).
    CheckPath(String),
    /// Ask the user for the installation folder (see
    /// `Settings::folder_picked`).
    PickFolder,
    /// Show the copyright notice.
    ShowCopyright,
}

/// The state of the settings page.
#[derive(Debug)]
pub struct Settings {
    pub dirty: bool,
    pub root_dir: Option<String>,
    pub new_dir: Option<String>,
    pub vmparams: Option<VMParams>,
    pub vmparams_editing_enabled: bool,
    pub manager_update_url: bool,
}

/// The amount typed into a size's box: the number typed when it is one,
/// zero when the box is empty, and the current amount otherwise.
pub open spec fn typed_amount(input: Seq<char>, current: i32) -> i32 {
    match spec_parse_i32(input) {
        Some(v) => v,
        None => if input.len() == 0 {
            0
        } else {
            current
        },
    }
}

/// The size that an edit of `kind` changes.
pub open spec fn size_of(p: VMParams, kind: VMParamChanged) -> Value {
    match kind {
        VMParamChanged::MinRam => p.heap_init,
        VMParamChanged::MaxRam => p.heap_max,
        VMParamChanged::_StackThread => p.thread_stack_size,
    }
}

/// `p` with the size of `kind` replaced by `v`.
pub open spec fn with_size(p: VMParams, kind: VMParamChanged, v: Value) -> VMParams {
    match kind {
        VMParamChanged::MinRam => VMParams { heap_init: v, ..p },
        VMParamChanged::MaxRam => VMParams { heap_max: v, ..p },
        VMParamChanged::_StackThread => VMParams { thread_stack_size: v, ..p },
    }
}

/// Replaces the size of `kind` in `p` by `v`.
fn set_size(p: &mut VMParams, kind: VMParamChanged, v: Value)
    ensures
        *final(p) == with_size(*old(p), kind, v),
{
    match kind {
        VMParamChanged::MinRam => p.heap_init = v,
        VMParamChanged::MaxRam => p.heap_max = v,
        VMParamChanged::_StackThread => p.thread_stack_size = v,
    }
}

impl Settings {
    /// The page before anything is loaded.
    pub fn new() -> (r: Self)
        ensures
            r.dirty,
            r.root_dir is None,
            r.new_dir is None,
            r.vmparams is None,
            !r.vmparams_editing_enabled,
            !r.manager_update_url,
    {
        Settings {
            dirty: true,
            root_dir: None,
            new_dir: None,
            vmparams: None,
            vmparams_editing_enabled: false,
            manager_update_url: false,
        }
    }

    /// Applies one message and says what must be done outside:
    /// - `InitRoot` sets the installation folder and marks the page loaded;
    /// - `Close` asks whether the folder typed (or the empty path) exists;
    /// - `PathChanged` records the typed folder once the page is loaded;
    /// - `OpenNativeFilePick` asks the user for a folder, `OpenNativeMessage`
    ///   shows the copyright notice;
    /// - `InitVMParams` sets the sizes, `VMParamsEditingToggled` turns their
    ///   editing on or off, `VMParamChanged` sets an amount (see
    ///   `typed_amount`), `UnitChanged` a unit; without sizes the last two do
    ///   nothing;
    /// - `InitUpdateStatus` records whether an update can be fetched;
    ///   `OpenReleases` does nothing.
    pub fn update(&mut self, message: SettingsMessage) -> (r: SettingsAction)
        ensures
            match message {
                SettingsMessage::InitRoot(root) => r == SettingsAction::Done && *final(self) == (Settings {
                    root_dir: root,
                    dirty: false,
                    ..*old(self)
                }),
                SettingsMessage::Close => *final(self) == *old(self) && (r matches SettingsAction::CheckPath(p) && p@
                    == (match old(self).new_dir {
                    Some(d) => d@,
                    None => Seq::<char>::empty(),
                })),
                SettingsMessage::PathChanged(path) => r == SettingsAction::Done && *final(self) == (Settings {
                    new_dir: if old(self).dirty {
                        old(self).new_dir
                    } else {
                        Some(path)
                    },
                    ..*old(self)
                }),
                SettingsMessage::OpenNativeFilePick => r == SettingsAction::PickFolder && *final(self) == *old(self),
                SettingsMessage::OpenNativeMessage => r == SettingsAction::ShowCopyright && *final(self) == *old(
                    self,
                ),
                SettingsMessage::InitVMParams(p) => r == SettingsAction::Done && *final(self) == (Settings {
                    vmparams: p,
                    ..*old(self)
                }),
                SettingsMessage::VMParamsEditingToggled(on) => r == SettingsAction::Done && *final(self) == (Settings {
                    vmparams_editing_enabled: on,
                    ..*old(self)
                }),
                SettingsMessage::VMParamChanged(input, kind) => r == SettingsAction::Done && *final(self) == (Settings {
                    vmparams: match old(self).vmparams {
                        Some(p) => Some(
                            with_size(
                                p,
                                kind,
                                Value { amount: typed_amount(input@, size_of(p, kind).amount), ..size_of(p, kind) },
                            ),
                        ),
                        None => None,
                    },
                    ..*old(self)
                }),
                SettingsMessage::UnitChanged(unit, kind) => r == SettingsAction::Done && *final(self) == (Settings {
                    vmparams: match old(self).vmparams {
                        Some(p) => Some(with_size(p, kind, Value { unit, ..size_of(p, kind) })),
                        None => None,
                    },
                    ..*old(self)
                }),
                SettingsMessage::InitUpdateStatus(status) => r == SettingsAction::Done && *final(self) == (Settings {
                    manager_update_url: status,
                    ..*old(self)
                }),
                SettingsMessage::OpenReleases => r == SettingsAction::Done && *final(self) == *old(self),
            },
    {
        match message {
            SettingsMessage::InitUpdateStatus(status) => {
                self.manager_update_url = status;
                SettingsAction::Done
            },
            SettingsMessage::OpenReleases => SettingsAction::Done,
            SettingsMessage::InitRoot(root) => {
                self.root_dir = root;
                self.dirty = false;
                SettingsAction::Done
            },
            SettingsMessage::Close => {
                let path = match &self.new_dir {
                    Some(d) => d.clone(),
                    None => String::new(),
                };
                SettingsAction::CheckPath(path)
            },
            SettingsMessage::PathChanged(path) => {
                if !self.dirty {
                    self.new_dir = Some(path);
                }
                SettingsAction::Done
            },
            SettingsMessage::OpenNativeFilePick => SettingsAction::PickFolder,
            SettingsMessage::OpenNativeMessage => SettingsAction::ShowCopyright,
            SettingsMessage::VMParamsEditingToggled(on) => {
                self.vmparams_editing_enabled = on;
                SettingsAction::Done
            },
            SettingsMessage::VMParamChanged(input, kind) => {
                let typed = chars_of(input.as_str());
                let parsed = parse_i32(&typed);
                match &mut self.vmparams {
                    Some(p) => {
                        let current = match kind {
                            VMParamChanged::MinRam => p.heap_init,
                            VMParamChanged::MaxRam => p.heap_max,
                            VMParamChanged::_StackThread => p.thread_stack_size,
                        };
                        let amount = match parsed {
                            Some(v) => v,
                            None => if typed.len() == 0 {
                                0
                            } else {
                                current.amount
                            },
                        };
                        set_size(p, kind, Value { amount, unit: current.unit });
                    },
                    None => {},
                }
                SettingsAction::Done
            },
            SettingsMessage::InitVMParams(params) => {
                self.vmparams = params;
                SettingsAction::Done
            },
            SettingsMessage::UnitChanged(unit, kind) => {
                match &mut self.vmparams {
                    Some(p) => {
                        let current = match kind {
                            VMParamChanged::MinRam => p.heap_init,
                            VMParamChanged::MaxRam => p.heap_max,
                            VMParamChanged::_StackThread => p.thread_stack_size,
                        };
                        set_size(p, kind, Value { amount: current.amount, unit });
                    },
                    None => {},
                }
                SettingsAction::Done
            },
        }
    }

    /// Finishes `Close` once the folder has been checked: an existing folder
    /// becomes the installation folder; otherwise the typed folder is
    /// forgotten.
    pub fn path_checked(&mut self, path: String, exists: bool)
        ensures
            exists ==> *final(self) == (Settings { root_dir: Some(path), ..*old(self) }),
            !exists ==> *final(self) == (Settings { new_dir: None, ..*old(self) }),
    {
        if exists {
            self.root_dir = Some(path);
        } else {
            self.new_dir = None;
        }
    }

    /// Finishes `OpenNativeFilePick` with the folder picked, if any: it
    /// becomes both the typed and the installation folder; a cancelled pick
    /// clears the installation folder.
    pub fn folder_picked(&mut self, picked: Option<String>)
        ensures
            picked is Some ==> *final(self) == (Settings { root_dir: picked, new_dir: picked, ..*old(self) }),
            picked is None ==> *final(self) == (Settings { root_dir: None, ..*old(self) }),
    {
        match &picked {
            Some(p) => {
                self.new_dir = Some(p.clone());
            },
            None => {},
        }
        self.root_dir = picked;
    }
}

/// Typing the decimal form of an amount into a size's box sets exactly that
/// amount, whatever the box held before.
pub proof fn law_typed_amount_is_read_back(n: i32, current: i32)
    ensures
        typed_amount(spec_format_i32(n), current) == n,
{
    law_i32_format_then_parse(n);
}

} // verus!
