//! The regular expressions that read `lspci` and `dnf` output, run by the
//! `regex` crate.
//!
//! What a regular expression matches is not restated here: each result is
//! named (`regex_is_match`, `regex_group`, ...) as a function of the pattern
//! and the text, and the parsers built on these results are verified
//! against the names.
use vstd::prelude::*;

verus! {

#[verifier::external_type_specification]
#[verifier::external_body]
pub struct ExRegex(regex::Regex);

/// Whether `regex::Regex::new` accepts the pattern.
pub uninterp spec fn regex_compiles(pattern: Seq<char>) -> bool;

/// What `regex::Regex::is_match` answers for the pattern on the text.
pub uninterp spec fn regex_is_match(pattern: Seq<char>, haystack: Seq<char>) -> bool;

/// The text of capture group `group` of the first match of the pattern in
/// the text (`regex::Regex::captures`); `None` when there is no match or the
/// group took no part in it.
pub uninterp spec fn regex_group(pattern: Seq<char>, haystack: Seq<char>, group: usize) -> Option<
    Seq<char>,
>;

/// The text with the first match of the pattern replaced by `replacement`
/// (`regex::Regex::replace`).
pub uninterp spec fn regex_replace_first(
    pattern: Seq<char>,
    haystack: Seq<char>,
    replacement: Seq<char>,
) -> Seq<char>;

/// The texts of the successive non-overlapping matches of the pattern
/// (`regex::Regex::find_iter`).
pub uninterp spec fn regex_find_all(pattern: Seq<char>, haystack: Seq<char>) -> Seq<Seq<char>>;

/// The pieces of the text between the matches of the pattern
/// (`regex::Regex::split`).
pub uninterp spec fn regex_split(pattern: Seq<char>, haystack: Seq<char>) -> Seq<Seq<char>>;

/// A compiled regular expression together with the pattern it was compiled
/// from; its view is that pattern.
pub struct Pattern {
    source: String,
    compiled: regex::Regex,
}

impl View for Pattern {
    type V = Seq<char>;

    closed spec fn view(&self) -> Seq<char> {
        self.source@
    }
}

/// `regex::Regex::new`. Trusted: a pattern comes back exactly when the
/// `regex` crate accepts the source, which is named [`regex_compiles`]; it
/// holds the source it was compiled from.
#[verifier::external_body]
fn compile(source: &str) -> (res: Option<Pattern>)
    ensures
        res is Some <==> regex_compiles(source@),
        res matches Some(p) ==> p@ == source@,
{
    match regex::Regex::new(source) {
        Ok(compiled) => Some(Pattern { source: source.to_string(), compiled }),
        Err(_) => None,
    }
}

/// `regex::Regex::is_match`. Trusted: the answer is [`regex_is_match`] of
/// the pattern and the text.
#[verifier::external_body]
pub(crate) fn is_match(p: &Pattern, haystack: &str) -> (res: bool)
    ensures
        res == regex_is_match(p@, haystack@),
{
    p.compiled.is_match(haystack)
}

/// `regex::Regex::captures`, then the text of one group. Trusted: the
/// result is [`regex_group`] of the pattern, the text and the group number.
#[verifier::external_body]
pub(crate) fn capture_group(p: &Pattern, haystack: &str, group: usize) -> (res: Option<String>)
    ensures
        match res {
            Some(s) => regex_group(p@, haystack@, group) == Some(s@),
            None => regex_group(p@, haystack@, group) is None,
        },
{
    match p.compiled.captures(haystack) {
        Some(caps) => match caps.get(group) {
            Some(m) => Some(m.as_str().to_string()),
            None => None,
        },
        None => None,
    }
}

/// `regex::Regex::replace`. Trusted: the result is [`regex_replace_first`]
/// of the pattern, the text and the replacement.
#[verifier::external_body]
pub(crate) fn replace_first(p: &Pattern, haystack: &str, replacement: &str) -> (res: String)
    ensures
        res@ == regex_replace_first(p@, haystack@, replacement@),
{
    p.compiled.replace(haystack, replacement).into_owned()
}

/// `regex::Regex::find_iter`, each match taken as its text. Trusted: the
/// texts are [`regex_find_all`] of the pattern and the text.
#[verifier::external_body]
pub(crate) fn find_all(p: &Pattern, haystack: &str) -> (res: Vec<String>)
    ensures
        res.deep_view() == regex_find_all(p@, haystack@),
{
    let mut res = Vec::new();
    for m in p.compiled.find_iter(haystack) {
        res.push(m.as_str().to_string());
    }
    res
}

/// `regex::Regex::split`. Trusted: the pieces are [`regex_split`] of the
/// pattern and the text.
#[verifier::external_body]
pub(crate) fn split(p: &Pattern, haystack: &str) -> (res: Vec<String>)
    ensures
        res.deep_view() == regex_split(p@, haystack@),
{
    let mut res = Vec::new();
    for piece in p.compiled.split(haystack) {
        res.push(piece.to_string());
    }
    res
}

/// Start of a device block in `lspci -nn -k` output: a slot `bb:dd.f` at
/// the start of a line.
pub const BLOCK_START: &'static str = r"(?m)^([0-9a-fA-F]{2}:[0-9a-fA-F]{2}\.[0-9a-fA-F])";

/// A display device class on the first line of a block.
pub const GPU_CLASS: &'static str = r"(?i)\b(VGA|3D|Display)\b";

/// The slot at the start of the first line.
pub const SLOT: &'static str = r"^([0-9a-fA-F:.]+)\s";

/// The `[vvvv:dddd]` PCI ID on the first line.
pub const PCI_ID: &'static str = r"\[([0-9a-fA-F]{4}:[0-9a-fA-F]{4})\]";

/// The slot and class before the device name.
pub const CONTROLLER_PREFIX: &'static str = r"(?i)^[0-9a-fA-F:.]+\s+\S+\s+controller:\s*";

/// A trailing `[....]` ID after the device name.
pub const TRAILING_ID: &'static str = r"\s*\[[0-9a-fA-F:]+\]\s*$";

/// The `Kernel driver in use:` line of a block.
pub const DRIVER_IN_USE: &'static str = r"^\s+Kernel driver in use:\s*(.+)";

/// The `Kernel modules:` line of a block.
pub const KERNEL_MODULES: &'static str = r"^\s+Kernel modules:\s*(.+)";

/// A package line of `dnf list`: `name.arch  version  repo`.
pub const DNF_PACKAGE_LINE: &'static str = r"^(\S+)\.\S+\s+(\S+)\s+";

/// Whether the `regex` crate accepts every pattern the parsers use.
pub open spec fn all_patterns_compile() -> bool {
    &&& regex_compiles(BLOCK_START@)
    &&& regex_compiles(GPU_CLASS@)
    &&& regex_compiles(SLOT@)
    &&& regex_compiles(PCI_ID@)
    &&& regex_compiles(CONTROLLER_PREFIX@)
    &&& regex_compiles(TRAILING_ID@)
    &&& regex_compiles(DRIVER_IN_USE@)
    &&& regex_compiles(KERNEL_MODULES@)
    &&& regex_compiles(DNF_PACKAGE_LINE@)
}

/// The compiled patterns of the parsers, each compiled from its constant.
pub struct ParsePatterns {
    pub(crate) block_start: Pattern,
    pub(crate) gpu_class: Pattern,
    pub(crate) slot: Pattern,
    pub(crate) pci_id: Pattern,
    pub(crate) controller_prefix: Pattern,
    pub(crate) trailing_id: Pattern,
    pub(crate) driver_in_use: Pattern,
    pub(crate) kernel_modules: Pattern,
    pub(crate) dnf_package_line: Pattern,
}

impl ParsePatterns {
    #[verifier::type_invariant]
    pub(crate) open spec fn compiled_from_constants(self) -> bool {
        &&& self.block_start@ == BLOCK_START@
        &&& self.gpu_class@ == GPU_CLASS@
        &&& self.slot@ == SLOT@
        &&& self.pci_id@ == PCI_ID@
        &&& self.controller_prefix@ == CONTROLLER_PREFIX@
        &&& self.trailing_id@ == TRAILING_ID@
        &&& self.driver_in_use@ == DRIVER_IN_USE@
        &&& self.kernel_modules@ == KERNEL_MODULES@
        &&& self.dnf_package_line@ == DNF_PACKAGE_LINE@
    }

    /// Compiles every pattern; `None` when the `regex` crate refuses one.
    pub fn new() -> (res: Option<ParsePatterns>)
        ensures
            res is Some <==> all_patterns_compile(),
    {
        let block_start = match compile(BLOCK_START) { Some(p) => p, None => return None };
        let gpu_class = match compile(GPU_CLASS) { Some(p) => p, None => return None };
        let slot = match compile(SLOT) { Some(p) => p, None => return None };
        let pci_id = match compile(PCI_ID) { Some(p) => p, None => return None };
        let controller_prefix = match compile(CONTROLLER_PREFIX) { Some(p) => p, None => return None };
        let trailing_id = match compile(TRAILING_ID) { Some(p) => p, None => return None };
        let driver_in_use = match compile(DRIVER_IN_USE) { Some(p) => p, None => return None };
        let kernel_modules = match compile(KERNEL_MODULES) { Some(p) => p, None => return None };
        let dnf_package_line = match compile(DNF_PACKAGE_LINE) { Some(p) => p, None => return None };
        Some(ParsePatterns {
            block_start,
            gpu_class,
            slot,
            pci_id,
            controller_prefix,
            trailing_id,
            driver_in_use,
            kernel_modules,
            dnf_package_line,
        })
    }
}

} // verus!
