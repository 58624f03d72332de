//! The base key bindings preference.
use vstd::prelude::*;
use crate::scope::str_eq;

verus! {

/// Base key bindings scheme. Base keymaps can be overridden with user keymaps.
#[derive(Clone, Copy, Debug, PartialEq, Eq, Structural)]
pub enum BaseKeymap {
    VSCode,
    JetBrains,
    SublimeText,
    Atom,
    TextMate,
    Emacs,
    Cursor,
    NoKeymap,
}

/// The display name of each scheme.
pub open spec fn name_of(k: BaseKeymap) -> Seq<char> {
    match k {
        BaseKeymap::JetBrains => "JetBrains"@,
        BaseKeymap::SublimeText => "Sublime Text"@,
        BaseKeymap::Atom => "Atom"@,
        BaseKeymap::Emacs => "Emacs (Beta)"@,
        BaseKeymap::Cursor => "Cursor (Beta)"@,
        BaseKeymap::TextMate => "TextMate"@,
        BaseKeymap::VSCode => "VSCode (Default)"@,
        BaseKeymap::NoKeymap => "None"@,
    }
}

/// The bundled keymap file of each scheme, where it has one.
pub open spec fn asset_path_of(k: BaseKeymap) -> Option<Seq<char>> {
    match k {
        BaseKeymap::JetBrains => Some("keymaps/linux/jetbrains.json"@),
        BaseKeymap::SublimeText => Some("keymaps/linux/sublime_text.json"@),
        BaseKeymap::Atom => Some("keymaps/linux/atom.json"@),
        BaseKeymap::Emacs => Some("keymaps/linux/emacs.json"@),
        BaseKeymap::Cursor => Some("keymaps/linux/cursor.json"@),
        BaseKeymap::TextMate => None,
        BaseKeymap::VSCode => None,
        BaseKeymap::NoKeymap => None,
    }
}

/// The schemes offered for selection, in the order they are listed.
pub open spec fn options() -> Seq<BaseKeymap> {
    seq![
        BaseKeymap::VSCode,
        BaseKeymap::Atom,
        BaseKeymap::JetBrains,
        BaseKeymap::SublimeText,
        BaseKeymap::Emacs,
        BaseKeymap::Cursor,
    ]
}

/// The first offered scheme at or after `i` whose name is `option`, or the
/// default scheme.
pub open spec fn from_name_from(option: Seq<char>, i: int) -> BaseKeymap
    decreases options().len() - i,
{
    if i < 0 || i >= options().len() {
        BaseKeymap::VSCode
    } else if name_of(options()[i]) == option {
        options()[i]
    } else {
        from_name_from(option, i + 1)
    }
}

impl Default for BaseKeymap {
    fn default() -> (r: BaseKeymap)
        ensures
            r == BaseKeymap::VSCode,
    {
        BaseKeymap::VSCode
    }
}

impl BaseKeymap {
    /// The bundled keymap file of this scheme, where it has one.
    pub fn asset_path(&self) -> (r: Option<&'static str>)
        ensures
            match r {
                Some(p) => asset_path_of(*self) == Some(p@),
                None => asset_path_of(*self) is None,
            },
    {
        match self {
            BaseKeymap::JetBrains => Some("keymaps/linux/jetbrains.json"),
            BaseKeymap::SublimeText => Some("keymaps/linux/sublime_text.json"),
            BaseKeymap::Atom => Some("keymaps/linux/atom.json"),
            BaseKeymap::Emacs => Some("keymaps/linux/emacs.json"),
            BaseKeymap::Cursor => Some("keymaps/linux/cursor.json"),
            BaseKeymap::TextMate => None,
            BaseKeymap::VSCode => None,
            BaseKeymap::NoKeymap => None,
        }
    }

    /// The display name of this scheme.
    pub fn name(&self) -> (r: &'static str)
        ensures
            r@ == name_of(*self),
    {
        match self {
            BaseKeymap::JetBrains => "JetBrains",
            BaseKeymap::SublimeText => "Sublime Text",
            BaseKeymap::Atom => "Atom",
            BaseKeymap::Emacs => "Emacs (Beta)",
            BaseKeymap::Cursor => "Cursor (Beta)",
            BaseKeymap::TextMate => "TextMate",
            BaseKeymap::VSCode => "VSCode (Default)",
            BaseKeymap::NoKeymap => "None",
        }
    }

    /// The offered schemes, in the order they are listed.
    pub fn options() -> (r: Vec<BaseKeymap>)
        ensures
            r@ == options(),
    {
        let r = vec![
            BaseKeymap::VSCode,
            BaseKeymap::Atom,
            BaseKeymap::JetBrains,
            BaseKeymap::SublimeText,
            BaseKeymap::Emacs,
            BaseKeymap::Cursor,
        ];
        assert(r@ =~= options());
        r
    }

    /// The names of the offered schemes, in the order they are listed.
    pub fn names() -> (r: Vec<&'static str>)
        ensures
            r@.len() == options().len(),
            forall|i: int| 0 <= i < r@.len() ==> r@[i]@ == name_of(#[trigger] options()[i]),
    {
        let opts = Self::options();
        let mut r: Vec<&'static str> = Vec::new();
        let mut i: usize = 0;
        while i < opts.len()
            invariant
                opts@ == options(),
                i <= opts@.len(),
                r@.len() == i,
                forall|j: int| 0 <= j < i ==> r@[j]@ == name_of(#[trigger] options()[j]),
            decreases opts@.len() - i,
        {
            r.push(opts[i].name());
            i = i + 1;
        }
        r
    }

    /// The offered scheme named `option`, or the default scheme when none is.
    pub fn from_names(option: &str) -> (r: BaseKeymap)
        ensures
            r == from_name_from(option@, 0),
    {
        let opts = Self::options();
        let mut i: usize = 0;
        while i < opts.len()
            invariant
                opts@ == options(),
                i <= opts@.len(),
                from_name_from(option@, i as int) == from_name_from(option@, 0),
            decreases opts@.len() - i,
        {
            if str_eq(opts[i].name(), option) {
                return opts[i];
            }
            i = i + 1;
        }
        BaseKeymap::VSCode
    }
}

} // verus!
