//! The navigation tree of the side bar: its labels, how it is built, and how
//! the path to the selected entry is opened and entries forced open or shut.

use vstd::prelude::*;
use vstd::std_specs::convert::FromSpecImpl;

verus! {

/// The entries of the side bar.
#[derive(Debug, Clone, Copy, PartialEq, Eq, Structural)]
pub enum NavLabel {
    Root,
    Mods,
    ModDetails,
    Profiles,
    Performance,
    ModBrowsers,
    Starmodder,
    StarmodderDetails,
    WebBrowser,
    Activity,
    Downloads,
    Settings,
    Separator,
}

/// The side bar's title for each entry: its name in title case.
pub open spec fn label_text(l: NavLabel) -> Seq<char> {
    match l {
        NavLabel::Root => "Root"@,
        NavLabel::Mods => "Mods"@,
        NavLabel::ModDetails => "Mod Details"@,
        NavLabel::Profiles => "Profiles"@,
        NavLabel::Performance => "Performance"@,
        NavLabel::ModBrowsers => "Mod Browsers"@,
        NavLabel::Starmodder => "Starmodder"@,
        NavLabel::StarmodderDetails => "Starmodder Details"@,
        NavLabel::WebBrowser => "Web Browser"@,
        NavLabel::Activity => "Activity"@,
        NavLabel::Downloads => "Downloads"@,
        NavLabel::Settings => "Settings"@,
        NavLabel::Separator => "Separator"@,
    }
}

impl NavLabel {
    /// The entry's title.
    pub fn as_str(&self) -> (r: &'static str)
        ensures
            r@ == label_text(*self),
    {
        match self {
            NavLabel::Root => "Root",
            NavLabel::Mods => "Mods",
            NavLabel::ModDetails => "Mod Details",
            NavLabel::Profiles => "Profiles",
            NavLabel::Performance => "Performance",
            NavLabel::ModBrowsers => "Mod Browsers",
            NavLabel::Starmodder => "Starmodder",
            NavLabel::StarmodderDetails => "Starmodder Details",
            NavLabel::WebBrowser => "Web Browser",
            NavLabel::Activity => "Activity",
            NavLabel::Downloads => "Downloads",
            NavLabel::Settings => "Settings",
            NavLabel::Separator => "Separator",
        }
    }

    /// The entry's title, as a new string.
    pub fn to_string(&self) -> (r: String)
        ensures
            r@ == label_text(*self),
    {
        String::from_str(self.as_str())
    }
}

impl From<NavLabel> for String {
    fn from(value: NavLabel) -> (r: String) {
        value.to_string()
    }
}

impl FromSpecImpl<NavLabel> for String {
    open spec fn obeys_from_spec() -> bool {
        false
    }

    open spec fn from_spec(v: NavLabel) -> String {
        arbitrary()
    }
}

/// An entry of the side bar and the entries below it.
#[derive(Debug)]
pub struct Nav {
    pub label: NavLabel,
    pub expanded: bool,
    pub children: Vec<Nav>,
    pub root: bool,
    pub depth: usize,
    pub linked: Option<NavLabel>,
    pub separator_: bool,
    pub always_open: bool,
    pub override_: Option<bool>,
}

/// Whether `l` labels `n` or an entry below it.
pub open spec fn contains_label(n: Nav, l: NavLabel) -> bool
    decreases n,
{
    n.label == l || exists|i: int| 0 <= i < n.children@.len() && contains_label(#[trigger] n.children@[i], l)
}

/// Whether some entry strictly below `n` is labelled `l`.
pub open spec fn below(n: Nav, l: NavLabel) -> bool {
    exists|i: int| 0 <= i < n.children@.len() && contains_label(#[trigger] n.children@[i], l)
}

/// `b` is `a` with the path to the entry labelled `l` opened: an entry
/// labelled `l` is opened and the entries below it are left as they were;
/// any other entry is open exactly when an entry below it is labelled `l`,
/// and the same holds of its children in turn. Nothing else changes.
pub open spec fn opened_towards(a: Nav, b: Nav, l: NavLabel) -> bool
    decreases a,
{
    &&& b.label == a.label
    &&& b.root == a.root
    &&& b.depth == a.depth
    &&& b.linked == a.linked
    &&& b.separator_ == a.separator_
    &&& b.always_open == a.always_open
    &&& b.override_ == a.override_
    &&& b.children@.len() == a.children@.len()
    &&& if a.label == l {
        &&& b.expanded
        &&& b.children@ == a.children@
    } else {
        &&& b.expanded == below(a, l)
        &&& forall|i: int| 0 <= i < a.children@.len() ==> opened_towards(#[trigger] a.children@[i], b.children@[i], l)
    }
}

/// `b` is `a` with the override of every entry labelled `target` set to
/// `o`, where the search does not go below an entry so labelled. Nothing
/// else changes.
pub open spec fn overridden_at(a: Nav, b: Nav, target: NavLabel, o: Option<bool>) -> bool
    decreases a,
{
    &&& b.label == a.label
    &&& b.expanded == a.expanded
    &&& b.root == a.root
    &&& b.depth == a.depth
    &&& b.linked == a.linked
    &&& b.separator_ == a.separator_
    &&& b.always_open == a.always_open
    &&& b.children@.len() == a.children@.len()
    &&& if a.label == target {
        &&& b.override_ == o
        &&& b.children@ == a.children@
    } else {
        &&& b.override_ == a.override_
        &&& forall|i: int|
            0 <= i < a.children@.len() ==> overridden_at(#[trigger] a.children@[i], b.children@[i], target, o)
    }
}

/// `b` is `a` with the depth of every entry below it raised by `k`.
pub open spec fn deepened(a: Nav, b: Nav, k: int) -> bool
    decreases a,
{
    &&& b.label == a.label
    &&& b.expanded == a.expanded
    &&& b.root == a.root
    &&& b.linked == a.linked
    &&& b.separator_ == a.separator_
    &&& b.always_open == a.always_open
    &&& b.override_ == a.override_
    &&& b.children@.len() == a.children@.len()
    &&& forall|i: int|
        0 <= i < a.children@.len() ==> (#[trigger] b.children@[i]).depth == a.children@[i].depth + k && deepened(
            a.children@[i],
            b.children@[i],
            k,
        )
}

/// How many entries the tree below `n` (with `n`) holds, counted so that a
/// depth can be raised once for each without overflow.
pub open spec fn depth_room(n: Nav) -> bool
    decreases n,
{
    forall|i: int|
        0 <= i < n.children@.len() ==> (#[trigger] n.children@[i]).depth < usize::MAX && depth_room(n.children@[i])
}

proof fn lemma_contains_label_unfold(n: Nav, l: NavLabel)
    ensures
        contains_label(n, l) == (n.label == l || below(n, l)),
{
}

impl Nav {
    /// A closed entry with no children.
    pub fn new(label: NavLabel) -> (r: Self)
        ensures
            r.label == label,
            !r.expanded,
            r.children@.len() == 0,
            !r.root,
            r.depth == 0,
            r.linked is None,
            !r.separator_,
            !r.always_open,
            r.override_ is None,
    {
        Nav {
            label,
            expanded: false,
            children: Vec::new(),
            root: false,
            depth: 0,
            linked: None,
            separator_: false,
            always_open: false,
            override_: None,
        }
    }

    /// A separator line.
    pub fn separator() -> (r: Self)
        ensures
            r.label == NavLabel::Separator,
            !r.expanded,
            r.children@.len() == 0,
            !r.root,
            r.depth == 0,
            r.linked is None,
            r.separator_,
            !r.always_open,
            r.override_ is None,
    {
        Nav {
            label: NavLabel::Separator,
            expanded: false,
            children: Vec::new(),
            root: false,
            depth: 0,
            linked: None,
            separator_: true,
            always_open: false,
            override_: None,
        }
    }

    /// This entry linked to the page of `label`.
    pub fn linked_to(self, label: NavLabel) -> (r: Self)
        ensures
            r == (Nav { linked: Some(label), ..self }),
    {
        let mut s = self;
        s.linked = Some(label);
        s
    }

    /// This entry as the root of the tree.
    pub fn as_root(self) -> (r: Self)
        ensures
            r == (Nav { root: true, ..self }),
    {
        let mut s = self;
        s.root = true;
        s
    }

    /// This entry, always shown open.
    pub fn is_always_open(self) -> (r: Self)
        ensures
            r == (Nav { always_open: true, ..self }),
    {
        let mut s = self;
        s.always_open = true;
        s
    }

    /// This entry, forced open or shut.
    pub fn overridden(self, override_: bool) -> (r: Self)
        ensures
            r == (Nav { override_: Some(override_), ..self }),
    {
        let mut s = self;
        s.override_ = Some(override_);
        s
    }

    /// Raises the depth of every entry below this one by one.
    pub fn increment_children_depth(&mut self)
        requires
            depth_room(*old(self)),
        ensures
            final(self).label == old(self).label,
            final(self).depth == old(self).depth,
            deepened(*old(self), *final(self), 1),
        decreases *old(self),
    {
        let ghost orig = *self;
        let mut rest: Vec<Nav> = Vec::new();
        std::mem::swap(&mut rest, &mut self.children);
        let mut done: Vec<Nav> = Vec::new();
        let n = rest.len();
        while rest.len() > 0
            invariant
                orig == *old(self),
                orig.children@.len() == n,
                done@.len() + rest@.len() == n,
                rest@ == orig.children@.skip(done@.len() as int),
                depth_room(orig),
                forall|j: int|
                    0 <= j < done@.len() ==> (#[trigger] done@[j]).depth == orig.children@[j].depth + 1 && deepened(
                        orig.children@[j],
                        done@[j],
                        1,
                    ),
            decreases rest@.len(),
        {
            let k = done.len();
            let mut child = rest.remove(0);
            proof {
                assert(child == orig.children@[k as int]);
                assert(rest@ =~= orig.children@.skip(k + 1));
                assert(decreases_to!(orig => orig.children));
                assert(decreases_to!(orig.children => orig.children@));
                assert(decreases_to!(orig.children@ => orig.children@[k as int]));
            }
            proof {
                assert(depth_room(orig.children@[k as int]));
            }
            child.increment_children_depth();
            child.depth = child.depth + 1;
            done.push(child);
        }
        self.children = done;
    }

    /// This entry with `children` below it, one level deeper than itself.
    pub fn with_children(self, children: Vec<Nav>) -> (r: Self)
        requires
            self.depth < usize::MAX,
            forall|i: int| 0 <= i < children@.len() ==> depth_room(#[trigger] children@[i]),
        ensures
            r.label == self.label,
            r.expanded == self.expanded,
            r.root == self.root,
            r.depth == self.depth,
            r.linked == self.linked,
            r.separator_ == self.separator_,
            r.always_open == self.always_open,
            r.override_ == self.override_,
            r.children@.len() == children@.len(),
            forall|i: int|
                0 <= i < children@.len() ==> (#[trigger] r.children@[i]).depth == self.depth + 1 && deepened(
                    Nav { depth: (self.depth + 1) as usize, ..children@[i] },
                    r.children@[i],
                    1,
                ),
    {
        let mut s = self;
        let mut rest = children;
        let ghost orig = rest@;
        let n = rest.len();
        let mut done: Vec<Nav> = Vec::new();
        while rest.len() > 0
            invariant
                orig.len() == n,
                done@.len() + rest@.len() == n,
                rest@ == orig.skip(done@.len() as int),
                s.depth < usize::MAX,
                forall|i: int| 0 <= i < orig.len() ==> depth_room(#[trigger] orig[i]),
                forall|j: int|
                    0 <= j < done@.len() ==> (#[trigger] done@[j]).depth == s.depth + 1 && deepened(
                        Nav { depth: (s.depth + 1) as usize, ..orig[j] },
                        done@[j],
                        1,
                    ),
            decreases rest@.len(),
        {
            let k = done.len();
            let mut child = rest.remove(0);
            proof {
                assert(child == orig[k as int]);
                assert(rest@ =~= orig.skip(k + 1));
            }
            child.depth = s.depth + 1;
            child.increment_children_depth();
            done.push(child);
        }
        s.children = done;
        s
    }

    /// Opens the path to the entry labelled `label` (see `opened_towards`)
    /// and tells whether this entry or one below it is so labelled.
    pub fn set_ancestors_expanded(&mut self, label: NavLabel) -> (r: bool)
        ensures
            r == contains_label(*old(self), label),
            opened_towards(*old(self), *final(self), label),
        decreases *old(self),
    {
        if self.label == label {
            self.expanded = true;
            return true;
        }
        let ghost orig = *self;
        let mut rest: Vec<Nav> = Vec::new();
        std::mem::swap(&mut rest, &mut self.children);
        let mut done: Vec<Nav> = Vec::new();
        let n = rest.len();
        let mut expand = false;
        while rest.len() > 0
            invariant
                orig == *old(self),
                orig.children@.len() == n,
                done@.len() + rest@.len() == n,
                rest@ == orig.children@.skip(done@.len() as int),
                orig.label != label,
                expand == exists|j: int| 0 <= j < done@.len() && #[trigger] contains_label(orig.children@[j], label),
                forall|j: int| 0 <= j < done@.len() ==> opened_towards(#[trigger] orig.children@[j], done@[j], label),
            decreases rest@.len(),
        {
            let k = done.len();
            let mut child = rest.remove(0);
            proof {
                assert(child == orig.children@[k as int]);
                assert(rest@ =~= orig.children@.skip(k + 1));
                assert(decreases_to!(orig => orig.children));
                assert(decreases_to!(orig.children => orig.children@));
                assert(decreases_to!(orig.children@ => orig.children@[k as int]));
            }
            let found = child.set_ancestors_expanded(label);
            expand = expand || found;
            done.push(child);
        }
        self.children = done;
        self.expanded = expand;
        proof {
            lemma_contains_label_unfold(orig, label);
        }
        expand
    }

    /// Sets the override of the entry labelled `target` (see
    /// `overridden_at`).
    pub fn set_override(&mut self, target: NavLabel, override_: Option<bool>)
        ensures
            overridden_at(*old(self), *final(self), target, override_),
        decreases *old(self),
    {
        if self.label == target {
            self.override_ = override_;
            return;
        }
        let ghost orig = *self;
        let mut rest: Vec<Nav> = Vec::new();
        std::mem::swap(&mut rest, &mut self.children);
        let mut done: Vec<Nav> = Vec::new();
        let n = rest.len();
        while rest.len() > 0
            invariant
                orig == *old(self),
                orig.children@.len() == n,
                done@.len() + rest@.len() == n,
                rest@ == orig.children@.skip(done@.len() as int),
                forall|j: int|
                    0 <= j < done@.len() ==> overridden_at(#[trigger] orig.children@[j], done@[j], target, override_),
            decreases rest@.len(),
        {
            let k = done.len();
            let mut child = rest.remove(0);
            proof {
                assert(child == orig.children@[k as int]);
                assert(rest@ =~= orig.children@.skip(k + 1));
                assert(decreases_to!(orig => orig.children));
                assert(decreases_to!(orig.children => orig.children@));
                assert(decreases_to!(orig.children@ => orig.children@[k as int]));
            }
            child.set_override(target, override_);
            done.push(child);
        }
        self.children = done;
    }
}

} // verus!
