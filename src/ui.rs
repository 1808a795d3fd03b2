//! The small state machines and classifications behind the interactive
//! editor: tabs, the browser's conversion choices, and the form of a name.

use vstd::prelude::*;
use crate::normalize::{nfc_of, nfd_of, NormalizationTarget};

verus! {

/// The tabs of the interactive editor, in display order.
#[derive(Debug, Clone, Copy, PartialEq, Eq, Structural)]
pub enum Tab {
    Home,
    Config,
    Logs,
    Browser,
}

impl Tab {
    /// The position of the tab in display order.
    pub open spec fn position(self) -> nat {
        match self {
            Tab::Home => 0,
            Tab::Config => 1,
            Tab::Logs => 2,
            Tab::Browser => 3,
        }
    }

    pub open spec fn spec_title(self) -> Seq<char> {
        match self {
            Tab::Home => "Home"@,
            Tab::Config => "Config"@,
            Tab::Logs => "Logs"@,
            Tab::Browser => "Browser"@,
        }
    }

    pub open spec fn spec_superscript(self) -> Seq<char> {
        match self {
            Tab::Home => "\u{b9}"@,
            Tab::Config => "\u{b2}"@,
            Tab::Logs => "\u{b3}"@,
            Tab::Browser => "\u{2074}"@,
        }
    }

    pub fn title(&self) -> (r: &'static str)
        ensures
            r@ == self.spec_title(),
    {
        match self {
            Tab::Home => "Home",
            Tab::Config => "Config",
            Tab::Logs => "Logs",
            Tab::Browser => "Browser",
        }
    }

    pub fn superscript(&self) -> (r: &'static str)
        ensures
            r@ == self.spec_superscript(),
    {
        match self {
            Tab::Home => "\u{b9}",
            Tab::Config => "\u{b2}",
            Tab::Logs => "\u{b3}",
            Tab::Browser => "\u{2074}",
        }
    }

    pub fn index(&self) -> (r: usize)
        ensures
            r == self.position(),
    {
        match self {
            Tab::Home => 0,
            Tab::Config => 1,
            Tab::Logs => 2,
            Tab::Browser => 3,
        }
    }

    /// The tab after this one, the first after the last.
    pub fn next(self) -> (r: Self)
        ensures
            r.position() == (self.position() + 1) % 4,
    {
        match self {
            Tab::Home => Tab::Config,
            Tab::Config => Tab::Logs,
            Tab::Logs => Tab::Browser,
            Tab::Browser => Tab::Home,
        }
    }

    /// The tab before this one, the last before the first.
    pub fn previous(self) -> (r: Self)
        ensures
            r.position() == (self.position() + 3) % 4,
    {
        match self {
            Tab::Home => Tab::Browser,
            Tab::Config => Tab::Home,
            Tab::Logs => Tab::Config,
            Tab::Browser => Tab::Logs,
        }
    }
}

/// The tab with the given position, given as the digit key that selects it.
pub fn tab_from_digit(c: char) -> (r: Option<Tab>)
    ensures
        match r {
            Some(t) => c == '1' && t == Tab::Home || c == '2' && t == Tab::Config || c == '3' && t
                == Tab::Logs || c == '4' && t == Tab::Browser,
            None => !('1' <= c && c <= '4'),
        },
{
    if c == '1' {
        Some(Tab::Home)
    } else if c == '2' {
        Some(Tab::Config)
    } else if c == '3' {
        Some(Tab::Logs)
    } else if c == '4' {
        Some(Tab::Browser)
    } else {
        None
    }
}

/// The conversion direction chosen in the browser.
#[derive(Debug, Clone, Copy, PartialEq, Eq, Structural)]
pub enum BrowserAction {
    /// To the composed form.
    Convert,
    /// To the decomposed form.
    Reverse,
}

impl BrowserAction {
    pub fn toggle(&self) -> (r: Self)
        ensures
            r != *self,
    {
        match self {
            BrowserAction::Convert => BrowserAction::Reverse,
            BrowserAction::Reverse => BrowserAction::Convert,
        }
    }

    pub fn to_target(self) -> (r: NormalizationTarget)
        ensures
            r == (match self {
                BrowserAction::Convert => NormalizationTarget::NFC,
                BrowserAction::Reverse => NormalizationTarget::NFD,
            }),
    {
        match self {
            BrowserAction::Convert => NormalizationTarget::NFC,
            BrowserAction::Reverse => NormalizationTarget::NFD,
        }
    }
}

/// How much of a selected directory the browser converts.
#[derive(Debug, Clone, Copy, PartialEq, Eq, Structural)]
pub enum BrowserMode {
    Recursive,
    Children,
    NameOnly,
}

impl BrowserMode {
    pub open spec fn label(&self) -> Seq<char> {
        match self {
            BrowserMode::Recursive => "Recursive"@,
            BrowserMode::Children => "Children only"@,
            BrowserMode::NameOnly => "Name only"@,
        }
    }

    /// Name only, then children, then recursive, then name only again.
    pub fn cycle(&self) -> (r: Self)
        ensures
            r == (match self {
                BrowserMode::NameOnly => BrowserMode::Children,
                BrowserMode::Children => BrowserMode::Recursive,
                BrowserMode::Recursive => BrowserMode::NameOnly,
            }),
    {
        match self {
            BrowserMode::NameOnly => BrowserMode::Children,
            BrowserMode::Children => BrowserMode::Recursive,
            BrowserMode::Recursive => BrowserMode::NameOnly,
        }
    }

    /// The cycle for a directory whose own name needs no conversion: name
    /// only is left out.
    pub fn cycle_skip_name_only(&self) -> (r: Self)
        ensures
            r != BrowserMode::NameOnly,
            *self == BrowserMode::Children ==> r == BrowserMode::Recursive,
            *self != BrowserMode::Children ==> r == BrowserMode::Children,
    {
        match self {
            BrowserMode::NameOnly => BrowserMode::Children,
            BrowserMode::Children => BrowserMode::Recursive,
            BrowserMode::Recursive => BrowserMode::Children,
        }
    }

    pub fn as_str(&self) -> (r: &'static str)
        ensures
            r@ == self.label(),
    {
        match self {
            BrowserMode::Recursive => "Recursive",
            BrowserMode::Children => "Children only",
            BrowserMode::NameOnly => "Name only",
        }
    }
}

/// The normalization form a name is in.
#[derive(Debug, Clone, Copy, PartialEq, Eq, Structural)]
pub enum UnicodeForm {
    NFC,
    NFD,
    ASCII,
    Mixed,
}

impl UnicodeForm {
    pub open spec fn label(&self) -> Seq<char> {
        match self {
            UnicodeForm::NFC => "NFC"@,
            UnicodeForm::NFD => "NFD"@,
            UnicodeForm::ASCII => ""@,
            UnicodeForm::Mixed => "Mixed"@,
        }
    }

    pub fn as_str(&self) -> (r: &'static str)
        ensures
            r@ == self.label(),
    {
        match self {
            UnicodeForm::NFC => "NFC",
            UnicodeForm::NFD => "NFD",
            UnicodeForm::ASCII => "",
            UnicodeForm::Mixed => "Mixed",
        }
    }
}

/// The form of `name`: ASCII when every character is; otherwise composed or
/// decomposed when it is in exactly that one form, ASCII-like when in both,
/// mixed when in neither.
pub open spec fn form_of_name(name: Seq<char>) -> UnicodeForm {
    if vstd::utf8::is_ascii_chars(name) {
        UnicodeForm::ASCII
    } else {
        let c = name == nfc_of(name);
        let d = name == nfd_of(name);
        if c && !d {
            UnicodeForm::NFC
        } else if !c && d {
            UnicodeForm::NFD
        } else if c && d {
            UnicodeForm::ASCII
        } else {
            UnicodeForm::Mixed
        }
    }
}

/// The normalization form that `name` is in.
pub fn detect_unicode_form(name: &str) -> (r: UnicodeForm)
    ensures
        r == form_of_name(name@),
{
    if name.is_ascii() {
        return UnicodeForm::ASCII;
    }
    let nfc = !NormalizationTarget::NFC.needs_conversion(name);
    let nfd = !NormalizationTarget::NFD.needs_conversion(name);
    if nfc && !nfd {
        UnicodeForm::NFC
    } else if !nfc && nfd {
        UnicodeForm::NFD
    } else if nfc && nfd {
        UnicodeForm::ASCII
    } else {
        UnicodeForm::Mixed
    }
}

/// What the browser's selection is.
#[derive(Debug, Clone, Copy, PartialEq, Eq, Structural)]
pub enum SelectionKind {
    /// The entry leading to the parent directory.
    Parent,
    /// A directory whose name is composed or decomposed.
    DirUnicode,
    /// A directory whose name is ASCII or mixed.
    DirAscii,
    /// A file with a decomposed name.
    FileNFD,
    /// A file with a composed name.
    FileNFC,
    /// A file with an ASCII or mixed name: nothing to convert.
    FileAscii,
    /// Nothing is selected.
    Nothing,
}

impl SelectionKind {
    pub fn is_dir(&self) -> (r: bool)
        ensures
            r == (*self == SelectionKind::DirUnicode || *self == SelectionKind::DirAscii),
    {
        match self {
            SelectionKind::DirUnicode => true,
            SelectionKind::DirAscii => true,
            _ => false,
        }
    }

    pub fn is_inactive(&self) -> (r: bool)
        ensures
            r == (*self == SelectionKind::Parent || *self == SelectionKind::FileAscii || *self
                == SelectionKind::Nothing),
    {
        match self {
            SelectionKind::Parent => true,
            SelectionKind::FileAscii => true,
            SelectionKind::Nothing => true,
            _ => false,
        }
    }
}

} // verus!
