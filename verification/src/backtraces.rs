//! What the profiler reads of a captured backtrace.
use backtrace::Backtrace;
use vstd::prelude::*;

verus! {

/// A captured backtrace of the `backtrace` crate.
#[verifier::external_type_specification]
#[verifier::external_body]
pub struct ExBacktrace(backtrace::Backtrace);

/// What a resolved symbol says: its demangled name, its source file and its line, each where known.
/// The file name is `Some(None)` where it is known but is not valid Unicode.
pub struct SymbolInfo {
    /// Demangled name.
    pub name: Option<String>,
    /// Source file.
    pub filename: Option<Option<String>>,
    /// Line in the source file.
    pub lineno: Option<u32>,
}

/// A [`SymbolInfo`] with its strings as character sequences.
pub struct SymbolView {
    /// Demangled name.
    pub name: Option<Seq<char>>,
    /// Source file.
    pub filename: Option<Option<Seq<char>>>,
    /// Line in the source file.
    pub lineno: Option<u32>,
}

impl View for SymbolInfo {
    type V = SymbolView;

    open spec fn view(&self) -> SymbolView {
        SymbolView {
            name: match self.name {
                Some(s) => Some(s@),
                None => None,
            },
            filename: match self.filename {
                Some(Some(s)) => Some(Some(s@)),
                Some(None) => Some(None),
                None => None,
            },
            lineno: self.lineno,
        }
    }
}

/// One frame of a backtrace: its instruction pointer, and its symbols once they are resolved,
/// innermost function first.
pub struct FrameView {
    /// Instruction pointer.
    pub ip: u64,
    /// Symbols, `None` before resolution.
    pub symbols: Option<Seq<SymbolView>>,
}

impl FrameView {
    /// The symbols that the frame shows: none before resolution.
    pub open spec fn shown(self) -> Seq<SymbolView> {
        match self.symbols {
            Some(symbols) => symbols,
            None => Seq::empty(),
        }
    }
}

/// The frames that a backtrace holds, innermost call first.
pub uninterp spec fn frames_of(bt: Backtrace) -> Seq<FrameView>;

/// The instruction pointers of frames.
pub open spec fn frame_ips(frames: Seq<FrameView>) -> Seq<u64> {
    frames.map_values(|f: FrameView| f.ip)
}

/// The instruction pointers of a backtrace's frames.
pub open spec fn ips_of(bt: Backtrace) -> Seq<u64> {
    frame_ips(frames_of(bt))
}

/// Whether `after` is `before` with its frames resolved: same pointers, every frame has its
/// symbols, and those that were there have stayed.
pub open spec fn resolved_from(before: Seq<FrameView>, after: Seq<FrameView>) -> bool {
    &&& after.len() == before.len()
    &&& forall|i: int|
        0 <= i < after.len() ==> {
            &&& (#[trigger] after[i]).ip == before[i].ip
            &&& after[i].symbols is Some
            &&& before[i].symbols is Some ==> after[i] == before[i]
        }
}

/// Whether `after` is `before`, resolved if that is needed and left alone if not.
pub open spec fn resolved_if(before: Seq<FrameView>, after: Seq<FrameView>, needed: bool) -> bool {
    if needed {
        resolved_from(before, after)
    } else {
        after == before
    }
}

/// `Backtrace::new_unresolved`: the call stack of this thread, without symbols.  Which frames there
/// are depends on the machine and the build.  Always inlined, so that it adds no frame of its own.
#[inline(always)]
#[verifier::external_body]
pub(crate) fn capture_unresolved() -> (bt: Backtrace)
    ensures
        forall|i: int| 0 <= i < frames_of(bt).len() ==> (#[trigger] frames_of(bt)[i]).symbols is None,
{
    Backtrace::new_unresolved()
}

/// `Backtrace::frames`, of which only the number is taken.
#[verifier::external_body]
pub(crate) fn num_frames(bt: &Backtrace) -> (n: usize)
    ensures
        n == frames_of(*bt).len(),
{
    bt.frames().len()
}

/// `BacktraceFrame::ip` of one frame, as a number.
#[verifier::external_body]
pub(crate) fn frame_ip(bt: &Backtrace, i: usize) -> (ip: u64)
    requires
        i < frames_of(*bt).len(),
    ensures
        ip == frames_of(*bt)[i as int].ip,
{
    bt.frames()[i].ip() as u64
}

/// `BacktraceFrame::symbols` of one frame, with the name, file name and line of each symbol
/// (`BacktraceSymbol::name`, `filename` and `lineno`) as plain values.
#[verifier::external_body]
pub(crate) fn frame_symbols(bt: &Backtrace, i: usize) -> (symbols: Vec<SymbolInfo>)
    requires
        i < frames_of(*bt).len(),
    ensures
        symbols@.map_values(|s: SymbolInfo| s@) == frames_of(*bt)[i as int].shown(),
{
    bt.frames()[i]
        .symbols()
        .iter()
        .map(|s| SymbolInfo {
            name: s.name().map(|n| format!("{}", n)),
            filename: s.filename().map(|p| p.to_str().map(|f| f.to_owned())),
            lineno: s.lineno(),
        })
        .collect()
}

/// `Backtrace::resolve`: finds the symbols of the frames that have not been resolved yet, and does
/// nothing to those that have.  Which symbols it finds depends on the machine and the build.
#[verifier::external_body]
pub(crate) fn resolve(bt: &mut Backtrace)
    ensures
        resolved_from(frames_of(*old(bt)), frames_of(*final(bt))),
{
    bt.resolve()
}

} // verus!
