//! Symbol names and file names cleaned up for reading.
use regex::Regex;
use vstd::prelude::*;

use crate::backtraces::SymbolInfo;
use crate::sharded_map::ShardedMap;
use crate::text::contains_str;

verus! {

/// A compiled regular expression of the `regex` crate.
#[verifier::external_type_specification]
#[verifier::external_body]
pub struct ExRegex(regex::Regex);

/// The pattern that a compiled expression holds.
pub uninterp spec fn regex_pattern(re: Regex) -> Seq<char>;

/// Whether a pattern compiles.
pub uninterp spec fn regex_compiles(pattern: Seq<char>) -> bool;

/// The text with the leftmost match of the pattern replaced, `None` where nothing matches.
pub uninterp spec fn regex_replaced(
    pattern: Seq<char>,
    text: Seq<char>,
    replacement: Seq<char>,
) -> Option<Seq<char>>;

/// `Regex::new`: compiles a pattern, `None` where it is not a valid one or is too large.
#[verifier::external_body]
fn compile(pattern: &str) -> (re: Option<Regex>)
    ensures
        re is Some <==> regex_compiles(pattern@),
        re matches Some(r) ==> regex_pattern(r) == pattern@,
{
    Regex::new(pattern).ok()
}

/// `Regex::replace`: replaces the leftmost match, `None` where it hands the text back because
/// nothing matches.
#[verifier::external_body]
fn replace_match(re: &Regex, text: &str, replacement: &str) -> (r: Option<String>)
    ensures
        match r {
            Some(s) => regex_replaced(regex_pattern(*re), text@, replacement@) == Some(s@),
            None => regex_replaced(regex_pattern(*re), text@, replacement@) is None,
        },
{
    match re.replace(text, replacement) {
        std::borrow::Cow::Owned(s) => Some(s),
        std::borrow::Cow::Borrowed(_) => None,
    }
}

/// The text with the leftmost match of the pattern replaced, `None` where nothing matches or the
/// pattern does not compile.
pub open spec fn replaced_by_pattern(
    pattern: Seq<char>,
    text: Seq<char>,
    replacement: Seq<char>,
) -> Option<Seq<char>> {
    if regex_compiles(pattern) {
        regex_replaced(pattern, text, replacement)
    } else {
        None
    }
}

/// A symbol name without its last path component, which in a mangled name is the hash.
pub open spec fn without_name_end(name: Seq<char>) -> Seq<char> {
    match replaced_by_pattern("(::\\w+)$"@, name, ""@) {
        Some(s) => s,
        None => name,
    }
}

/// A file name with the first of the common prefixes that it starts with abbreviated.
pub open spec fn shortened_filename(filename: Seq<char>) -> Seq<char> {
    match replaced_by_pattern("^/rustc/\\w+/library/"@, filename, "RUST:"@) {
        Some(s) => s,
        None => match replaced_by_pattern(
            "^/Users/\\w+/.cargo/registry/src/github.com-\\w+/"@,
            filename,
            "Cargo:"@,
        ) {
            Some(s) => s,
            None => match replaced_by_pattern(
                "^/home/\\w+/.cargo/registry/src/github.com-\\w+/"@,
                filename,
                "Cargo:"@,
            ) {
                Some(s) => s,
                None => filename,
            },
        },
    }
}

spec fn holds_pattern(re: Option<Regex>, pattern: Seq<char>) -> bool {
    match re {
        Some(r) => regex_compiles(pattern) && regex_pattern(r) == pattern,
        None => !regex_compiles(pattern),
    }
}

fn replace_by_pattern(
    re: &Option<Regex>,
    text: &str,
    replacement: &str,
    Ghost(pattern): Ghost<Seq<char>>,
) -> (r: Option<String>)
    requires
        holds_pattern(*re, pattern),
    ensures
        match r {
            Some(s) => replaced_by_pattern(pattern, text@, replacement@) == Some(s@),
            None => replaced_by_pattern(pattern, text@, replacement@) is None,
        },
{
    match re {
        Some(r) => replace_match(r, text, replacement),
        None => None,
    }
}

/// The patterns that symbol and file names are cleaned up with, compiled once.
pub struct SymbolRegexes {
    name_end: Option<Regex>,
    rust_library: Option<Regex>,
    users_registry: Option<Regex>,
    home_registry: Option<Regex>,
}

impl SymbolRegexes {
    /// Each expression is the compiled form of its pattern.
    pub closed spec fn wf(&self) -> bool {
        &&& holds_pattern(self.name_end, "(::\\w+)$"@)
        &&& holds_pattern(self.rust_library, "^/rustc/\\w+/library/"@)
        &&& holds_pattern(
            self.users_registry,
            "^/Users/\\w+/.cargo/registry/src/github.com-\\w+/"@,
        )
        &&& holds_pattern(self.home_registry, "^/home/\\w+/.cargo/registry/src/github.com-\\w+/"@)
    }

    /// Compiles the patterns.
    pub fn new() -> (r: Self)
        ensures
            r.wf(),
    {
        SymbolRegexes {
            name_end: compile("(::\\w+)$"),
            rust_library: compile("^/rustc/\\w+/library/"),
            users_registry: compile("^/Users/\\w+/.cargo/registry/src/github.com-\\w+/"),
            home_registry: compile("^/home/\\w+/.cargo/registry/src/github.com-\\w+/"),
        }
    }

    fn strip_name_end(&self, name: &String) -> (r: String)
        requires
            self.wf(),
        ensures
            r@ == without_name_end(name@),
    {
        match replace_by_pattern(&self.name_end, name.as_str(), "", Ghost("(::\\w+)$"@)) {
            Some(s) => s,
            None => name.clone(),
        }
    }

    fn shorten_filename(&self, filename: &str) -> (r: String)
        requires
            self.wf(),
        ensures
            r@ == shortened_filename(filename@),
    {
        if let Some(s) = replace_by_pattern(
            &self.rust_library,
            filename,
            "RUST:",
            Ghost("^/rustc/\\w+/library/"@),
        ) {
            return s;
        }
        if let Some(s) = replace_by_pattern(
            &self.users_registry,
            filename,
            "Cargo:",
            Ghost("^/Users/\\w+/.cargo/registry/src/github.com-\\w+/"@),
        ) {
            return s;
        }
        if let Some(s) = replace_by_pattern(
            &self.home_registry,
            filename,
            "Cargo:",
            Ghost("^/home/\\w+/.cargo/registry/src/github.com-\\w+/"@),
        ) {
            return s;
        }
        filename.to_owned()
    }
}

/// A symbol with cleaned up, demangled name and shortened filename and line number as well.
///
/// The shorter filename has common patterns like /Users/*/.cargo/registry/src/github.com-..../
/// and /rustc/..../library substituted out for better readability.
pub struct FriendlySymbol {
    /// Demangled name without the hash at its end.
    pub friendly_name: String,
    /// Whether this is a call that polls a future.
    pub is_poll: bool,
    /// Abbreviated source file, empty where it is unknown.
    pub shorter_filename: String,
    /// Line in the source file, 0 where it is unknown.
    pub line_no: u32,
}

/// A [`FriendlySymbol`] with its strings as character sequences.
pub struct FriendlyView {
    /// Demangled name without the hash at its end.
    pub friendly_name: Seq<char>,
    /// Whether this is a call that polls a future.
    pub is_poll: bool,
    /// Abbreviated source file, empty where it is unknown.
    pub shorter_filename: Seq<char>,
    /// Line in the source file, 0 where it is unknown.
    pub line_no: u32,
}

impl View for FriendlySymbol {
    type V = FriendlyView;

    open spec fn view(&self) -> FriendlyView {
        FriendlyView {
            friendly_name: self.friendly_name@,
            is_poll: self.is_poll,
            shorter_filename: self.shorter_filename@,
            line_no: self.line_no,
        }
    }
}

/// A symbol cleaned up.
pub open spec fn befriended(s: crate::backtraces::SymbolView) -> FriendlyView {
    let friendly_name = match s.name {
        Some(demangled) => without_name_end(demangled),
        None => "<none>"@,
    };
    FriendlyView {
        friendly_name,
        is_poll: match s.name {
            Some(demangled) => crate::text::occurs_in("::poll::"@, demangled),
            None => false,
        },
        shorter_filename: match s.filename {
            Some(Some(filename)) => shortened_filename(filename),
            Some(None) => shortened_filename(Seq::empty()),
            None => Seq::empty(),
        },
        line_no: match s.lineno {
            Some(n) => n,
            None => 0,
        },
    }
}

/// Symbols cleaned up one by one.
pub open spec fn all_befriended(symbols: Seq<crate::backtraces::SymbolView>) -> Seq<FriendlyView> {
    symbols.map_values(|s: crate::backtraces::SymbolView| befriended(s))
}

impl FriendlySymbol {
    /// Cleans up a symbol of a backtrace.
    pub fn from_symbol(regexes: &SymbolRegexes, s: &SymbolInfo) -> (r: Self)
        requires
            regexes.wf(),
        ensures
            r@ == befriended(s@),
    {
        // Get demangled name and strip the hash at its end
        let friendly_name = match &s.name {
            Some(demangled) => regexes.strip_name_end(demangled),
            None => "<none>".to_owned(),
        };
        // The hash is still there, so that a name that ends in `::poll` is recognized
        let is_poll: bool = match &s.name {
            Some(demangled) => contains_str(demangled.as_str(), "::poll::"),
            None => false,
        };
        // Get filename and convert common patterns
        let shorter_filename = match &s.filename {
            Some(Some(filename)) => regexes.shorten_filename(filename.as_str()),
            Some(None) => regexes.shorten_filename(String::new().as_str()),
            None => String::new(),
        };
        let line_no: u32 = match s.lineno {
            Some(n) => n,
            None => 0,
        };
        FriendlySymbol { friendly_name, is_poll, shorter_filename, line_no }
    }

    /// Cleans up all symbols of a frame.
    pub fn from_symbols(regexes: &SymbolRegexes, symbols: &Vec<SymbolInfo>) -> (r: Vec<Self>)
        requires
            regexes.wf(),
        ensures
            friendly_views(r@) == all_befriended(symbols@.map_values(|s: SymbolInfo| s@)),
    {
        let mut r: Vec<FriendlySymbol> = Vec::with_capacity(symbols.len());
        let mut i: usize = 0;
        while i < symbols.len()
            invariant
                regexes.wf(),
                i <= symbols@.len(),
                r@.len() == i,
                forall|j: int| 0 <= j < i ==> (#[trigger] r@[j])@ == befriended(symbols@[j]@),
            decreases symbols.len() - i,
        {
            r.push(FriendlySymbol::from_symbol(regexes, &symbols[i]));
            i += 1;
        }
        assert(friendly_views(r@) =~= all_befriended(symbols@.map_values(|s: SymbolInfo| s@)));
        r
    }
}

/// A map for caching symbols in backtraces so that a stack is mostly stored as numbers: for each
/// instruction pointer its symbols, innermost function first.
pub type SymbolMap = ShardedMap<Vec<FriendlySymbol>>;

/// Symbols with their strings as character sequences.
pub open spec fn friendly_views(symbols: Seq<FriendlySymbol>) -> Seq<FriendlyView> {
    symbols.map_values(|s: FriendlySymbol| s@)
}

/// A symbol map with its symbols as [`FriendlyView`]s.
pub open spec fn symbol_views(m: Map<u64, Vec<FriendlySymbol>>) -> Map<u64, Seq<FriendlyView>> {
    m.map_values(|v: Vec<FriendlySymbol>| friendly_views(v@))
}

} // verus!
