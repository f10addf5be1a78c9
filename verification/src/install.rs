//! Installing the preprocessor into a book: what has to be added to
//! `book.toml`, decided from what stands there.

use crate::scanner::characters;
use vstd::prelude::*;

verus! {

/// What stands at a key of `book.toml`.
#[derive(Clone, Copy, Debug, PartialEq, Eq, Structural)]
pub enum Entry {
    /// Nothing.
    Missing,
    /// A table with a header of its own.
    Table,
    /// An array.
    Array,
    /// Anything else.
    Other,
}

/// What the installation reads from `book.toml`. An entry under a key that
/// is missing counts as missing, whatever is written here.
#[derive(Clone, Copy, Debug, PartialEq, Eq, Structural)]
pub struct BookToml {
    /// `output`
    pub output: Entry,
    /// `output.html`
    pub html: Entry,
    /// `output.html.additional-css`
    pub additional_css: Entry,
    /// Whether that array lists the path of the style sheet.
    pub css_listed: bool,
    /// `preprocessor`
    pub preprocessor: Entry,
    /// `preprocessor.blush`
    pub blush: Entry,
}

/// What the installation adds to `book.toml`.
#[derive(Clone, Copy, Debug, PartialEq, Eq, Structural)]
pub struct InstallPlan {
    /// Add the table `output`, without a header of its own.
    pub add_output: bool,
    /// Add the table `output.html`, without a header of its own.
    pub add_html: bool,
    /// Add the empty array `output.html.additional-css`.
    pub add_additional_css: bool,
    /// Add the path of the style sheet to that array.
    pub add_css_path: bool,
    /// Add the table `preprocessor`, without a header of its own.
    pub add_preprocessor: bool,
    /// Add the table `preprocessor.blush`.
    pub add_blush: bool,
    /// Warn that `preprocessor.blush` is no table.
    pub warn_blush: bool,
}

/// Why `book.toml` cannot be edited.
#[derive(Clone, Copy, Debug, PartialEq, Eq, Structural)]
pub enum InstallError {
    OutputNotTable,
    HtmlNotTable,
    AdditionalCssNotArray,
    PreprocessorNotTable,
}

/// What stands under a parent: nothing where the parent is missing.
pub open spec fn under(parent: Entry, entry: Entry) -> Entry {
    if parent == Entry::Missing {
        Entry::Missing
    } else {
        entry
    }
}

impl BookToml {
    /// `output.html`, as far as `output` is there.
    pub open spec fn html_there(self) -> Entry {
        under(self.output, self.html)
    }

    /// `output.html.additional-css`, as far as `output.html` is there.
    pub open spec fn additional_css_there(self) -> Entry {
        under(self.html_there(), self.additional_css)
    }

    /// `preprocessor.blush`, as far as `preprocessor` is there.
    pub open spec fn blush_there(self) -> Entry {
        under(self.preprocessor, self.blush)
    }

    /// The first entry that is in the way, in the order `output`,
    /// `output.html`, `output.html.additional-css`, `preprocessor`.
    pub open spec fn obstacle(self) -> Option<InstallError> {
        if self.output != Entry::Missing && self.output != Entry::Table {
            Some(InstallError::OutputNotTable)
        } else if self.html_there() != Entry::Missing && self.html_there() != Entry::Table {
            Some(InstallError::HtmlNotTable)
        } else if self.additional_css_there() != Entry::Missing && self.additional_css_there()
            != Entry::Array {
            Some(InstallError::AdditionalCssNotArray)
        } else if self.preprocessor != Entry::Missing && self.preprocessor != Entry::Table {
            Some(InstallError::PreprocessorNotTable)
        } else {
            None
        }
    }

    /// What is added where nothing is in the way: each missing entry, and
    /// the path of the style sheet unless the array is there and lists it.
    pub open spec fn plan(self) -> InstallPlan {
        InstallPlan {
            add_output: self.output == Entry::Missing,
            add_html: self.html_there() == Entry::Missing,
            add_additional_css: self.additional_css_there() == Entry::Missing,
            add_css_path: self.additional_css_there() == Entry::Missing || !self.css_listed,
            add_preprocessor: self.preprocessor == Entry::Missing,
            add_blush: self.blush_there() == Entry::Missing,
            warn_blush: self.blush_there() != Entry::Missing && self.blush_there()
                != Entry::Table,
        }
    }

    /// The file as it stands once the plan is carried out.
    pub open spec fn installed(self) -> BookToml {
        BookToml {
            output: Entry::Table,
            html: Entry::Table,
            additional_css: Entry::Array,
            css_listed: true,
            preprocessor: Entry::Table,
            blush: if self.blush_there() == Entry::Missing {
                Entry::Table
            } else {
                self.blush
            },
        }
    }
}

impl InstallPlan {
    /// The plan adds something.
    pub open spec fn adds(self) -> bool {
        self.add_output || self.add_html || self.add_additional_css || self.add_css_path
            || self.add_preprocessor || self.add_blush
    }

    /// Whether `book.toml` has to be written again.
    pub fn changed(&self) -> (changed: bool)
        ensures
            changed == self.adds(),
    {
        self.add_output || self.add_html || self.add_additional_css || self.add_css_path
            || self.add_preprocessor || self.add_blush
    }
}

impl InstallError {
    /// The error in words.
    pub fn message(&self) -> (text: &'static str)
        ensures
            text@ == match *self {
                InstallError::OutputNotTable => "`output` entry must be a table"@,
                InstallError::HtmlNotTable => "`output.html` entry must be a table"@,
                InstallError::AdditionalCssNotArray => "`output.html.additional-css` must be an array"@,
                InstallError::PreprocessorNotTable => "`preprocessor` entry must be a table"@,
            },
    {
        match self {
            InstallError::OutputNotTable => "`output` entry must be a table",
            InstallError::HtmlNotTable => "`output.html` entry must be a table",
            InstallError::AdditionalCssNotArray => "`output.html.additional-css` must be an array",
            InstallError::PreprocessorNotTable => "`preprocessor` entry must be a table",
        }
    }
}

/// The style sheet that the installation writes.
pub fn style_sheet() -> (text: &'static str)
    ensures
        text@ == ".small-caps {\n    font-variant: small-caps;\n}\n"@,
{
    ".small-caps {\n    font-variant: small-caps;\n}\n"
}

/// The name of the style sheet's file.
pub fn style_sheet_name() -> (text: &'static str)
    ensures
        text@ == "blush.css"@,
{
    "blush.css"
}

/// Whether the array of additional style sheets lists the given path: one of
/// its strings is that path, character for character.
pub fn style_sheet_listed(entries: &Vec<String>, css_path: &str) -> (listed: bool)
    ensures
        listed == exists|i: int| 0 <= i < entries@.len() && (#[trigger] entries@[i])@ == css_path@,
{
    let wanted = characters(css_path);
    let n: usize = entries.len();
    let mut i: usize = 0;
    while i < n
        invariant
            n == entries@.len(),
            i <= n,
            wanted@ == css_path@,
            forall|k: int| 0 <= k < i ==> (#[trigger] entries@[k])@ != css_path@,
        decreases n - i,
    {
        let entry = characters(entries[i].as_str());
        if same_characters(&entry, &wanted) {
            return true;
        }
        i += 1;
    }
    false
}

/// Whether two texts are the same, character for character.
fn same_characters(left: &Vec<char>, right: &Vec<char>) -> (same: bool)
    ensures
        same == (left@ == right@),
{
    if left.len() != right.len() {
        return false;
    }
    let n: usize = left.len();
    let mut i: usize = 0;
    while i < n
        invariant
            n == left@.len(),
            n == right@.len(),
            i <= n,
            forall|k: int| 0 <= k < i ==> left@[k] == right@[k],
        decreases n - i,
    {
        if left[i] != right[i] {
            return false;
        }
        i += 1;
    }
    assert(left@ =~= right@);
    true
}

fn under_exec(parent: Entry, entry: Entry) -> (out: Entry)
    ensures
        out == under(parent, entry),
{
    match parent {
        Entry::Missing => Entry::Missing,
        _ => entry,
    }
}

fn is_missing(entry: Entry) -> (out: bool)
    ensures
        out == (entry == Entry::Missing),
{
    match entry {
        Entry::Missing => true,
        _ => false,
    }
}

fn missing_or(entry: Entry, wanted: Entry) -> (out: bool)
    ensures
        out == (entry == Entry::Missing || entry == wanted),
{
    is_missing(entry) || entry == wanted
}

/// Decides what the installation adds to `book.toml`, or which entry is in
/// its way.
pub fn run_install_command_impl(book: &BookToml) -> (out: Result<InstallPlan, InstallError>)
    ensures
        match out {
            Ok(plan) => book.obstacle() is None && plan == book.plan(),
            Err(e) => book.obstacle() == Some(e),
        },
{
    let html = under_exec(book.output, book.html);
    let additional_css = under_exec(html, book.additional_css);
    let blush = under_exec(book.preprocessor, book.blush);
    if !missing_or(book.output, Entry::Table) {
        return Err(InstallError::OutputNotTable);
    }
    if !missing_or(html, Entry::Table) {
        return Err(InstallError::HtmlNotTable);
    }
    if !missing_or(additional_css, Entry::Array) {
        return Err(InstallError::AdditionalCssNotArray);
    }
    if !missing_or(book.preprocessor, Entry::Table) {
        return Err(InstallError::PreprocessorNotTable);
    }
    Ok(
        InstallPlan {
            add_output: is_missing(book.output),
            add_html: is_missing(html),
            add_additional_css: is_missing(additional_css),
            add_css_path: is_missing(additional_css) || !book.css_listed,
            add_preprocessor: is_missing(book.preprocessor),
            add_blush: is_missing(blush),
            warn_blush: !missing_or(blush, Entry::Table),
        },
    )
}

/// Installing twice adds nothing the second time: once a plan is carried
/// out, nothing is in the way and the next plan adds nothing.
pub proof fn lemma_second_install_adds_nothing(book: BookToml)
    requires
        book.obstacle() is None,
    ensures
        book.installed().obstacle() is None,
        !book.installed().plan().adds(),
{
}

} // verus!
