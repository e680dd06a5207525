//! Stack traces: capturing, hashing, resolving and printing them.
use std::hash::Hasher;

use backtrace::Backtrace;
use vstd::prelude::*;
use wyhash::WyHash;

pub use crate::stack_stats::{Measurement, StackStats};
pub use crate::symbols::FriendlySymbol;

use crate::backtraces::{frame_ip, frame_symbols, num_frames, resolve};
use crate::symbols::{SymbolMap, SymbolRegexes};
use crate::text::{append_decimal, append_hexadecimal, quote};

verus! {

/// The number of frames at the top of the stack to skip.  Most of these have to do with
/// backtrace and this profiler infrastructure.  This number needs to be adjusted
/// depending on the implementation.
pub const TOP_FRAMES_TO_SKIP: usize = 3;

/// The number of frames of a [`StdCallstack`].
pub const MAX_NUM_FRAMES: usize = 30;

/// The seed that stack traces are hashed with.
pub const HASH_SEED: u64 = 17;

/// A stack trace of the standard size.
pub type StdCallstack = Callstack<MAX_NUM_FRAMES>;

/// The wyhash of `bytes` for the given seed.
pub uninterp spec fn wyhash_of(seed: u64, bytes: Seq<u8>) -> u64;

/// `WyHash` of the `wyhash` crate, seeded (`WyHash::with_seed`), fed the bytes in one go
/// (`Hasher::write`) and finished (`Hasher::finish`): a function of the seed and the bytes.
#[verifier::external_body]
fn wyhash_bytes(seed: u64, bytes: &[u8]) -> (h: u64)
    ensures
        h == wyhash_of(seed, bytes@),
{
    let mut hasher = WyHash::with_seed(seed);
    hasher.write(bytes);
    hasher.finish()
}

/// The frames that a stack trace of `size` frames keeps of a backtrace: those after the ones to
/// skip, in order, up to where the backtrace or its first `size` frames end; zeros after that.
pub open spec fn kept_frames(ips: Seq<u64>, size: nat) -> Seq<u64> {
    Seq::new(
        size,
        |i: int|
            if i + TOP_FRAMES_TO_SKIP < ips.len() && i + TOP_FRAMES_TO_SKIP < size {
                ips[i + TOP_FRAMES_TO_SKIP]
            } else {
                0
            },
    )
}

/// The first `n` frames as bytes, each in little-endian order.
pub open spec fn frame_bytes(frames: Seq<u64>, n: nat) -> Seq<u8>
    decreases n,
{
    if n == 0 {
        Seq::empty()
    } else {
        frame_bytes(frames, (n - 1) as nat) + vstd::bytes::spec_u64_to_le_bytes(frames[n - 1])
    }
}

/// The hash of a stack trace with the given frames.
pub open spec fn hash_of(frames: Seq<u64>) -> u64 {
    wyhash_of(HASH_SEED, frame_bytes(frames, frames.len()))
}

/// The number of frames before the first zero.
pub open spec fn depth_from(frames: Seq<u64>, from: nat) -> nat
    decreases frames.len() - from,
{
    if from >= frames.len() || frames[from as int] == 0 {
        from
    } else {
        depth_from(frames, from + 1)
    }
}

/// What a symbol map is after each of the first `n` frames has been looked at in turn: a frame
/// whose pointer has no entry yet gets the symbols that the backtrace shows for it.
pub open spec fn populated(
    symbols: Map<u64, Seq<crate::symbols::FriendlyView>>,
    frames: Seq<u64>,
    bt: Seq<crate::backtraces::FrameView>,
    n: nat,
) -> Map<u64, Seq<crate::symbols::FriendlyView>>
    decreases n,
{
    if n == 0 {
        symbols
    } else {
        let before = populated(symbols, frames, bt, (n - 1) as nat);
        let ip = frames[n - 1];
        if before.contains_key(ip) {
            before
        } else {
            before.insert(
                ip,
                crate::symbols::all_befriended(bt[n - 1 + TOP_FRAMES_TO_SKIP].shown()),
            )
        }
    }
}

/// Whether the `j`th frame is the first with its pointer, and the pointer had no symbols before.
pub open spec fn newly_seen(
    symbols: Map<u64, Seq<crate::symbols::FriendlyView>>,
    frames: Seq<u64>,
    j: int,
) -> bool {
    &&& !symbols.contains_key(frames[j])
    &&& forall|l: int| 0 <= l < j ==> frames[l] != frames[j]
}

/// Whether one of the first `n` frames gets an entry in the symbol map for which the backtrace shows
/// no symbols yet.
pub open spec fn needs_resolving(
    symbols: Map<u64, Seq<crate::symbols::FriendlyView>>,
    frames: Seq<u64>,
    bt: Seq<crate::backtraces::FrameView>,
    n: nat,
) -> bool {
    exists|j: int|
        0 <= j < n && #[trigger] newly_seen(symbols, frames, j) && bt[j
            + TOP_FRAMES_TO_SKIP].shown().len() == 0
}

/// A symbol as a line of a report: its name, and where it stands if that is asked for.
pub open spec fn symbol_text(
    s: crate::symbols::FriendlyView,
    include_filename: bool,
) -> Seq<char> {
    if include_filename {
        s.friendly_name + "\n\t("@ + crate::text::in_quotes(s.shorter_filename) + ":"@
            + crate::text::decimal(s.line_no as nat) + ")"@
    } else {
        s.friendly_name
    }
}

/// The lines for the symbols inlined into a frame, up to the `n`th symbol of the frame.  With
/// `filter_poll`, calls that poll a future are left out.
pub open spec fn inlined_text(
    symbols: Seq<crate::symbols::FriendlyView>,
    n: nat,
    filename_info: bool,
    filter_poll: bool,
) -> Seq<char>
    decreases n,
{
    if n <= 1 {
        Seq::empty()
    } else {
        let before = inlined_text(symbols, (n - 1) as nat, filename_info, filter_poll);
        if filter_poll && symbols[n - 1].is_poll {
            before
        } else {
            before + "    > "@ + symbol_text(symbols[n - 1], filename_info) + "\n"@
        }
    }
}

/// The lines for one frame: its first symbol and, if frames are expanded, the others.  The symbols
/// inlined into a call that polls a future are not interesting and never shown.
pub open spec fn frame_text(
    symbols: Seq<crate::symbols::FriendlyView>,
    filename_info: bool,
    filter_poll: bool,
    expand_frames: bool,
) -> Seq<char> {
    if symbols.len() == 0 {
        Seq::empty()
    } else {
        let first = "  "@ + symbol_text(symbols[0], filename_info) + "\n"@;
        if expand_frames && !symbols[0].is_poll {
            first + inlined_text(symbols, symbols.len(), filename_info, filter_poll)
        } else {
            first
        }
    }
}

/// The lines for the first `n` frames: nothing for a pointer that has no entry in the symbol map.
pub open spec fn frames_text(
    frames: Seq<u64>,
    n: nat,
    symbols: Map<u64, Seq<crate::symbols::FriendlyView>>,
    filename_info: bool,
    filter_poll: bool,
    expand_frames: bool,
) -> Seq<char>
    decreases n,
{
    if n == 0 {
        Seq::empty()
    } else {
        let before = frames_text(
            frames,
            (n - 1) as nat,
            symbols,
            filename_info,
            filter_poll,
            expand_frames,
        );
        if symbols.contains_key(frames[n - 1]) {
            before + frame_text(
                symbols[frames[n - 1]],
                filename_info,
                filter_poll,
                expand_frames,
            )
        } else {
            before
        }
    }
}

/// A whole stack trace: a heading with its hash, then its frames.
pub open spec fn stack_text(
    frames: Seq<u64>,
    symbols: Map<u64, Seq<crate::symbols::FriendlyView>>,
    filename_info: bool,
    filter_poll: bool,
    expand_frames: bool,
) -> Seq<char> {
    "Callback <hash = 0x"@ + crate::text::hexadecimal(hash_of(frames) as nat) + ">\n"@ + frames_text(
        frames,
        frames.len(),
        symbols,
        filename_info,
        filter_poll,
        expand_frames,
    )
}

/// An optimized Callstack struct that represents a single stack trace.
/// No symbols are explicitly held here - the major savings is that
/// we use an external dictionary to store symbols, because the same IPs
/// are used over and over in many stack traces.
///
/// To reduce allocations, a fixed number of frames is kept.
#[derive(Debug)]
pub struct Callstack<const NF: usize> {
    frames: [u64; NF],
}

impl<const NF: usize> Clone for Callstack<NF> {
    fn clone(&self) -> (r: Self)
        ensures
            r == *self,
    {
        Callstack { frames: self.frames }
    }
}

impl<const NF: usize> View for Callstack<NF> {
    type V = Seq<u64>;

    closed spec fn view(&self) -> Seq<u64> {
        self.frames@
    }
}

impl<const NF: usize> Callstack<NF> {
    /// The hash of this stack trace.
    pub open spec fn hash(&self) -> u64 {
        hash_of(self@)
    }

    /// The number of frames before the first zero.
    pub open spec fn depth(&self) -> nat {
        depth_from(self@, 0)
    }

    /// Whether the frames that this stack trace holds are frames of a backtrace of `len` frames.
    pub open spec fn fits(&self, len: nat) -> bool {
        self.depth() > 0 ==> self.depth() + TOP_FRAMES_TO_SKIP <= len
    }

    /// Whether every frame that is the first with its pointer, and whose pointer has no symbols yet,
    /// is a frame of a backtrace of `len` frames.
    pub open spec fn covered_by(
        &self,
        symbols: Map<u64, Seq<crate::symbols::FriendlyView>>,
        len: nat,
    ) -> bool {
        forall|i: int|
            0 <= i < self.depth() && #[trigger] newly_seen(symbols, self@, i) ==> i
                + TOP_FRAMES_TO_SKIP < len
    }

    /// Creates a stack trace from the instruction pointers of a backtrace.
    pub fn from_ips(ips: &[u64]) -> (r: Self)
        ensures
            r@ == kept_frames(ips@, NF as nat),
            r@.len() == NF,
            r.fits(ips@.len()),
    {
        let mut frames: [u64; NF] = [0; NF];
        let end: usize = if ips.len() < NF {
            ips.len()
        } else {
            NF
        };
        let mut i: usize = TOP_FRAMES_TO_SKIP;
        while i < end
            invariant
                TOP_FRAMES_TO_SKIP <= i,
                i <= end || i == TOP_FRAMES_TO_SKIP,
                end <= NF,
                end <= ips@.len(),
                end == NF || end == ips@.len(),
                frames@.len() == NF,
                forall|j: int|
                    0 <= j < NF ==> #[trigger] frames@[j] == (if j < i - TOP_FRAMES_TO_SKIP {
                        ips@[j + TOP_FRAMES_TO_SKIP]
                    } else {
                        0
                    }),
            decreases end - i,
        {
            frames[i - TOP_FRAMES_TO_SKIP] = ips[i];
            i += 1;
        }
        let r = Callstack { frames };
        assert(r@ =~= kept_frames(ips@, NF as nat));
        proof {
            lemma_depth_fits(ips@, NF as nat);
        }
        r
    }

    /// Creates a stack trace from a backtrace, preferably unresolved for speed.
    pub fn from_backtrace_unresolved(bt: &Backtrace) -> (r: Self)
        ensures
            r@ == kept_frames(crate::backtraces::ips_of(*bt), NF as nat),
            r@.len() == NF,
            r.fits(crate::backtraces::frames_of(*bt).len()),
    {
        let n: usize = num_frames(bt);
        let mut ips: Vec<u64> = Vec::with_capacity(n);
        while ips.len() < n
            invariant
                n == crate::backtraces::frames_of(*bt).len(),
                ips@.len() <= n,
                forall|j: int|
                    0 <= j < ips@.len() ==> #[trigger] ips@[j] == crate::backtraces::frames_of(
                        *bt,
                    )[j].ip,
            decreases n - ips.len(),
        {
            ips.push(frame_ip(bt, ips.len()));
        }
        assert(ips@ =~= crate::backtraces::ips_of(*bt));
        Self::from_ips(ips.as_slice())
    }

    /// The frames of this stack trace, zeros after the last one.
    pub fn frames(&self) -> (r: &[u64; NF])
        ensures
            r@ == self@,
    {
        &self.frames
    }

    /// The hash of this stack trace, by which equal traces are found again.
    pub fn compute_hash(&self) -> (h: u64)
        ensures
            h == self.hash(),
    {
        let mut bytes: Vec<u8> = Vec::new();
        let mut i: usize = 0;
        while i < NF
            invariant
                i <= NF,
                self@.len() == NF,
                bytes@ == frame_bytes(self@, i as nat),
            decreases NF - i,
        {
            let mut frame: Vec<u8> = vstd::bytes::u64_to_le_bytes(self.frames[i]);
            bytes.append(&mut frame);
            i += 1;
        }
        wyhash_bytes(HASH_SEED, bytes.as_slice())
    }

    /// Goes through the IPs stored and ensures that the symbol map has resolved symbols for
    /// all of them.  If it does not, resolves the backtrace symbols and updates the symbol map.
    /// Potentially very expensive due to resolving IPs.
    pub fn populate_symbol_map(
        &self,
        bt: &mut Backtrace,
        symbol_map: &mut SymbolMap,
        regexes: &SymbolRegexes,
    )
        requires
            self.covered_by(
                crate::symbols::symbol_views(old(symbol_map)@),
                crate::backtraces::frames_of(*old(bt)).len(),
            ),
            old(symbol_map).wf(),
            regexes.wf(),
        ensures
            final(symbol_map).wf(),
            final(symbol_map).num_shards() == old(symbol_map).num_shards(),
            crate::backtraces::ips_of(*final(bt)) == crate::backtraces::ips_of(*old(bt)),
            crate::backtraces::resolved_if(
                crate::backtraces::frames_of(*old(bt)),
                crate::backtraces::frames_of(*final(bt)),
                needs_resolving(
                    crate::symbols::symbol_views(old(symbol_map)@),
                    self@,
                    crate::backtraces::frames_of(*old(bt)),
                    self.depth(),
                ),
            ),
            crate::symbols::symbol_views(final(symbol_map)@) == populated(
                crate::symbols::symbol_views(old(symbol_map)@),
                self@,
                crate::backtraces::frames_of(*final(bt)),
                self.depth(),
            ),
    {
        let ghost symbols0 = crate::symbols::symbol_views(symbol_map@);
        let ghost frames0 = crate::backtraces::frames_of(*bt);
        proof {
            lemma_depth_from(self@, 0, self@.len());
        }
        let num: usize = num_frames(bt);
        let mut i: usize = 0;
        // For each IP in our trace that is not zero
        while i < NF && self.frames[i] != 0
            invariant
                self@.len() == NF,
                i <= self.depth() <= NF,
                forall|j: int| 0 <= j < self.depth() ==> self@[j] != 0,
                self.depth() < NF ==> self@[self.depth() as int] == 0,
                self.covered_by(symbols0, frames0.len()),
                frames0.len() == num,
                regexes.wf(),
                symbol_map.wf(),
                symbol_map.num_shards() == old(symbol_map).num_shards(),
                crate::backtraces::frames_of(*bt).len() == frames0.len(),
                crate::backtraces::resolved_if(
                    frames0,
                    crate::backtraces::frames_of(*bt),
                    needs_resolving(symbols0, self@, frames0, i as nat),
                ),
                forall|j: int|
                    0 <= j < i && #[trigger] newly_seen(symbols0, self@, j)
                        ==> crate::backtraces::frames_of(*bt)[j
                        + TOP_FRAMES_TO_SKIP].symbols is Some,
                crate::symbols::symbol_views(symbol_map@) == populated(
                    symbols0,
                    self@,
                    crate::backtraces::frames_of(*bt),
                    i as nat,
                ),
            decreases NF - i,
        {
            let ip: u64 = self.frames[i];
            proof {
                lemma_populated_keys(
                    symbols0,
                    self@,
                    crate::backtraces::frames_of(*bt),
                    i as nat,
                );
            }
            if !symbol_map.contains_key(ip) {
                assert(!crate::symbols::symbol_views(symbol_map@).contains_key(self@[i as int]));
                assert(newly_seen(symbols0, self@, i as int));
                // IP not there.  Get the symbols of the corresponding frame from the backtrace,
                // and resolve it if necessary
                let mut symbols = frame_symbols(bt, i + TOP_FRAMES_TO_SKIP);
                if symbols.len() == 0 {
                    let ghost unresolved = crate::backtraces::frames_of(*bt);
                    resolve(bt);
                    proof {
                        lemma_populated_same(
                            symbols0,
                            self@,
                            unresolved,
                            crate::backtraces::frames_of(*bt),
                            i as nat,
                        );
                    }
                    symbols = frame_symbols(bt, i + TOP_FRAMES_TO_SKIP);
                } else {
                    assert(symbols@.map_values(|s: crate::backtraces::SymbolInfo| s@).len() != 0);
                }
                // Convert frame symbols into FriendlySymbols and add to symbol map
                let ghost before = symbol_map@;
                let friendlies = FriendlySymbol::from_symbols(regexes, &symbols);
                symbol_map.insert(ip, friendlies);
                assert(crate::symbols::symbol_views(symbol_map@)
                    =~= crate::symbols::symbol_views(before).insert(
                    ip,
                    crate::symbols::friendly_views(friendlies@),
                ));
                assert(crate::backtraces::frames_of(*bt)[i + TOP_FRAMES_TO_SKIP].symbols is Some);
            } else {
                assert(crate::symbols::symbol_views(symbol_map@).contains_key(ip));
                assert(!newly_seen(symbols0, self@, i as int));
            }
            i += 1;
        }
        assert(i == self.depth());
        assert(crate::backtraces::ips_of(*bt) =~= crate::backtraces::ips_of(*old(bt)));
    }

    /// Obtains a DecoratedCallstack for display, with inlined symbols if `expand_frames` is set.
    pub fn with_symbols<'s, 'm>(
        &'s self,
        symbols: &'m SymbolMap,
        expand_frames: bool,
    ) -> (r: DecoratedCallstack<'s, 'm, NF>)
        ensures
            r == (DecoratedCallstack {
                cb: self,
                symbols,
                filename_info: false,
                filter_poll: true,
                expand_frames,
            }),
    {
        DecoratedCallstack {
            cb: self,
            symbols,
            filename_info: false,
            filter_poll: true,
            expand_frames,
        }
    }

    /// Obtains a DecoratedCallstack for display with both symbol and filename/lineno info.
    pub fn with_symbols_and_filename<'s, 'm>(
        &'s self,
        symbols: &'m SymbolMap,
        expand_frames: bool,
    ) -> (r: DecoratedCallstack<'s, 'm, NF>)
        ensures
            r == (DecoratedCallstack {
                cb: self,
                symbols,
                filename_info: true,
                filter_poll: true,
                expand_frames,
            }),
    {
        DecoratedCallstack {
            cb: self,
            symbols,
            filename_info: true,
            filter_poll: true,
            expand_frames,
        }
    }
}

/// A stack trace together with the symbols and the choices that it is displayed with.
pub struct DecoratedCallstack<'cb, 's, const NF: usize> {
    /// The stack trace.
    pub cb: &'cb Callstack<NF>,
    /// Where its symbols are looked up.
    pub symbols: &'s SymbolMap,
    /// Whether source file and line are shown.
    pub filename_info: bool,
    /// Whether inlined calls that poll a future are left out.
    pub filter_poll: bool,
    /// Whether the symbols inlined into a frame are shown.
    pub expand_frames: bool,
}

impl<'cb, 's, const NF: usize> DecoratedCallstack<'cb, 's, NF> {
    /// The text that is displayed.
    pub open spec fn text(&self) -> Seq<char> {
        stack_text(
            self.cb@,
            crate::symbols::symbol_views(self.symbols@),
            self.filename_info,
            self.filter_poll,
            self.expand_frames,
        )
    }

    /// The stack trace as text, one line for each frame and, where frames are expanded, for each
    /// symbol inlined into it.
    pub fn render(&self) -> (r: String)
        requires
            self.symbols.wf(),
        ensures
            r@ == self.text(),
    {
        let mut out = "Callback <hash = 0x".to_owned();
        append_hexadecimal(&mut out, self.cb.compute_hash());
        out.append(">\n");
        let ghost head = out@;
        let ghost views = crate::symbols::symbol_views(self.symbols@);
        let mut i: usize = 0;
        while i < NF
            invariant
                i <= NF,
                self.cb@.len() == NF,
                self.symbols.wf(),
                views == crate::symbols::symbol_views(self.symbols@),
                out@ == head + frames_text(
                    self.cb@,
                    i as nat,
                    views,
                    self.filename_info,
                    self.filter_poll,
                    self.expand_frames,
                ),
            decreases NF - i,
        {
            let ghost before = out@;
            if let Some(symbols) = self.symbols.get(self.cb.frames[i]) {
                self.append_frame(&mut out, symbols);
            }
            i += 1;
            assert(out@ =~= head + frames_text(
                self.cb@,
                i as nat,
                views,
                self.filename_info,
                self.filter_poll,
                self.expand_frames,
            ));
        }
        out
    }

    fn append_frame(&self, out: &mut String, symbols: &Vec<FriendlySymbol>)
        ensures
            final(out)@ == old(out)@ + frame_text(
                crate::symbols::friendly_views(symbols@),
                self.filename_info,
                self.filter_poll,
                self.expand_frames,
            ),
    {
        let ghost views = crate::symbols::friendly_views(symbols@);
        let ghost start = out@;
        if symbols.len() == 0 {
            assert(out@ =~= start + frame_text(
                views,
                self.filename_info,
                self.filter_poll,
                self.expand_frames,
            ));
            return;
        }
        out.append("  ");
        append_symbol(out, &symbols[0], self.filename_info);
        out.append("\n");
        let ghost first = "  "@ + symbol_text(views[0], self.filename_info) + "\n"@;
        assert(out@ =~= start + first);
        // Don't expand inlined `::poll::` subcalls, they aren't interesting
        if self.expand_frames && !symbols[0].is_poll {
            let mut i: usize = 1;
            assert(out@ =~= start + first + inlined_text(
                views,
                1,
                self.filename_info,
                self.filter_poll,
            ));
            while i < symbols.len()
                invariant
                    1 <= i <= symbols@.len(),
                    views == crate::symbols::friendly_views(symbols@),
                    out@ == start + first + inlined_text(
                        views,
                        i as nat,
                        self.filename_info,
                        self.filter_poll,
                    ),
                decreases symbols.len() - i,
            {
                if !(self.filter_poll && symbols[i].is_poll) {
                    out.append("    > ");
                    append_symbol(out, &symbols[i], self.filename_info);
                    out.append("\n");
                }
                i += 1;
                assert(out@ =~= start + first + inlined_text(
                    views,
                    i as nat,
                    self.filename_info,
                    self.filter_poll,
                ));
            }
            assert(out@ =~= start + (first + inlined_text(
                views,
                views.len(),
                self.filename_info,
                self.filter_poll,
            )));
        }
    }
}

fn append_symbol(out: &mut String, s: &FriendlySymbol, include_filename: bool)
    ensures
        final(out)@ == old(out)@ + symbol_text(s@, include_filename),
{
    let ghost start = out@;
    out.append(s.friendly_name.as_str());
    if include_filename {
        out.append("\n\t(");
        out.append(quote(s.shorter_filename.as_str()).as_str());
        out.append(":");
        append_decimal(out, s.line_no as u64);
        out.append(")");
    }
    assert(out@ =~= start + symbol_text(s@, include_filename));
}

/// A symbol as a line of a report: its name, and where it stands if that is asked for.
pub fn stringify_symbol(s: &FriendlySymbol, include_filename: bool) -> (r: String)
    ensures
        r@ == symbol_text(s@, include_filename),
{
    let mut out = String::new();
    append_symbol(&mut out, s, include_filename);
    assert(out@ =~= symbol_text(s@, include_filename));
    out
}

proof fn lemma_populated_keys(
    symbols: Map<u64, Seq<crate::symbols::FriendlyView>>,
    frames: Seq<u64>,
    bt: Seq<crate::backtraces::FrameView>,
    n: nat,
)
    ensures
        forall|k: u64| #[trigger]
            populated(symbols, frames, bt, n).contains_key(k) <==> symbols.contains_key(k) || exists|
                l: int,
            | 0 <= l < n && frames[l] == k,
    decreases n,
{
    if n > 0 {
        lemma_populated_keys(symbols, frames, bt, (n - 1) as nat);
        let before = populated(symbols, frames, bt, (n - 1) as nat);
        assert forall|k: u64|
            #[trigger] populated(symbols, frames, bt, n).contains_key(k) <==> symbols.contains_key(
                k,
            ) || exists|l: int| 0 <= l < n && frames[l] == k by {
            assert(before.contains_key(k) <==> symbols.contains_key(k) || exists|l: int|
                0 <= l < n - 1 && frames[l] == k);
            assert(populated(symbols, frames, bt, n).contains_key(k) <==> before.contains_key(k)
                || k == frames[n - 1]);
        }
    }
}

proof fn lemma_populated_same(
    symbols: Map<u64, Seq<crate::symbols::FriendlyView>>,
    frames: Seq<u64>,
    a: Seq<crate::backtraces::FrameView>,
    b: Seq<crate::backtraces::FrameView>,
    n: nat,
)
    requires
        forall|j: int|
            0 <= j < n && #[trigger] newly_seen(symbols, frames, j) ==> a[j
                + TOP_FRAMES_TO_SKIP].shown() == b[j + TOP_FRAMES_TO_SKIP].shown(),
    ensures
        populated(symbols, frames, a, n) == populated(symbols, frames, b, n),
    decreases n,
{
    if n > 0 {
        lemma_populated_same(symbols, frames, a, b, (n - 1) as nat);
        lemma_populated_keys(symbols, frames, a, (n - 1) as nat);
        if !populated(symbols, frames, a, (n - 1) as nat).contains_key(frames[n - 1]) {
            assert(newly_seen(symbols, frames, n - 1));
        }
    }
}

proof fn lemma_depth_from(frames: Seq<u64>, from: nat, bound: nat)
    requires
        from <= bound <= frames.len(),
        bound < frames.len() ==> frames[bound as int] == 0,
    ensures
        from <= depth_from(frames, from) <= bound,
        forall|i: int| from <= i < depth_from(frames, from) ==> frames[i] != 0,
        depth_from(frames, from) < frames.len() ==> frames[depth_from(frames, from) as int] == 0,
    decreases bound - from,
{
    if from < bound && frames[from as int] != 0 {
        lemma_depth_from(frames, from + 1, bound);
    }
}

pub(crate) proof fn lemma_depth_fits(ips: Seq<u64>, size: nat)
    ensures
        depth_from(kept_frames(ips, size), 0) > 0 ==> depth_from(kept_frames(ips, size), 0)
            + TOP_FRAMES_TO_SKIP <= ips.len(),
{
    let frames = kept_frames(ips, size);
    let end = if ips.len() < size {
        ips.len() as int
    } else {
        size as int
    };
    if end > TOP_FRAMES_TO_SKIP {
        lemma_depth_from(frames, 0, (end - TOP_FRAMES_TO_SKIP) as nat);
    } else if size > 0 {
        assert(frames[0] == 0);
    }
}

proof fn lemma_populated_keeps(
    symbols: Map<u64, Seq<crate::symbols::FriendlyView>>,
    frames: Seq<u64>,
    bt: Seq<crate::backtraces::FrameView>,
    n: nat,
)
    ensures
        forall|ip: u64| #[trigger]
            symbols.contains_key(ip) ==> populated(symbols, frames, bt, n).contains_key(ip)
                && populated(symbols, frames, bt, n)[ip] == symbols[ip],
    decreases n,
{
    if n > 0 {
        lemma_populated_keeps(symbols, frames, bt, (n - 1) as nat);
    }
}

/// Populating a symbol map gives every frame of the stack trace an entry, and leaves the entries
/// that were there as they were.
pub proof fn law_populating_covers_every_frame(
    symbols: Map<u64, Seq<crate::symbols::FriendlyView>>,
    frames: Seq<u64>,
    bt: Seq<crate::backtraces::FrameView>,
)
    ensures
        ({
            let after = populated(symbols, frames, bt, depth_from(frames, 0));
            &&& forall|i: int|
                0 <= i < depth_from(frames, 0) ==> after.contains_key(#[trigger] frames[i])
            &&& forall|ip: u64| #[trigger]
                symbols.contains_key(ip) ==> after.contains_key(ip) && after[ip] == symbols[ip]
        }),
{
    lemma_populated_keys(symbols, frames, bt, depth_from(frames, 0));
    lemma_populated_keeps(symbols, frames, bt, depth_from(frames, 0));
}

proof fn lemma_populated_covered(
    symbols: Map<u64, Seq<crate::symbols::FriendlyView>>,
    frames: Seq<u64>,
    bt: Seq<crate::backtraces::FrameView>,
    n: nat,
)
    requires
        forall|i: int| 0 <= i < n ==> symbols.contains_key(#[trigger] frames[i]),
    ensures
        populated(symbols, frames, bt, n) == symbols,
    decreases n,
{
    if n > 0 {
        lemma_populated_covered(symbols, frames, bt, (n - 1) as nat);
        assert(symbols.contains_key(frames[n - 1]));
    }
}

/// Populating a symbol map again from the same stack trace changes nothing, whatever the backtrace
/// then shows.
pub proof fn law_populating_is_idempotent(
    symbols: Map<u64, Seq<crate::symbols::FriendlyView>>,
    frames: Seq<u64>,
    bt: Seq<crate::backtraces::FrameView>,
    again: Seq<crate::backtraces::FrameView>,
)
    ensures
        ({
            let after = populated(symbols, frames, bt, depth_from(frames, 0));
            populated(after, frames, again, depth_from(frames, 0)) == after
        }),
{
    law_populating_covers_every_frame(symbols, frames, bt);
    lemma_populated_covered(
        populated(symbols, frames, bt, depth_from(frames, 0)),
        frames,
        again,
        depth_from(frames, 0),
    );
}

/// The first `n` symbols of a frame without the inlined ones that poll a future.
pub open spec fn without_polls(symbols: Seq<crate::symbols::FriendlyView>, n: nat) -> Seq<
    crate::symbols::FriendlyView,
>
    decreases n,
{
    if n == 0 {
        Seq::empty()
    } else {
        let before = without_polls(symbols, (n - 1) as nat);
        if n > 1 && symbols[n - 1].is_poll {
            before
        } else {
            before.push(symbols[n - 1])
        }
    }
}

proof fn lemma_inlined_text_prefix(
    a: Seq<crate::symbols::FriendlyView>,
    b: Seq<crate::symbols::FriendlyView>,
    n: nat,
    filename_info: bool,
    filter_poll: bool,
)
    requires
        forall|i: int| 0 <= i < n ==> a[i] == b[i],
    ensures
        inlined_text(a, n, filename_info, filter_poll) == inlined_text(
            b,
            n,
            filename_info,
            filter_poll,
        ),
    decreases n,
{
    if n > 1 {
        lemma_inlined_text_prefix(a, b, (n - 1) as nat, filename_info, filter_poll);
    }
}

proof fn lemma_inlined_without_polls(
    symbols: Seq<crate::symbols::FriendlyView>,
    n: nat,
    filename_info: bool,
)
    requires
        n <= symbols.len(),
    ensures
        inlined_text(symbols, n, filename_info, true) == inlined_text(
            without_polls(symbols, n),
            without_polls(symbols, n).len(),
            filename_info,
            false,
        ),
        n > 0 ==> without_polls(symbols, n).len() > 0 && without_polls(symbols, n)[0] == symbols[0],
    decreases n,
{
    if n > 0 {
        lemma_inlined_without_polls(symbols, (n - 1) as nat, filename_info);
        let before = without_polls(symbols, (n - 1) as nat);
        lemma_inlined_text_prefix(
            before,
            without_polls(symbols, n),
            before.len(),
            filename_info,
            false,
        );
    }
}

/// Leaving out inlined calls that poll a future is the same as showing a frame that does not have
/// them.
pub proof fn law_polls_are_left_out(
    symbols: Seq<crate::symbols::FriendlyView>,
    filename_info: bool,
    expand_frames: bool,
)
    ensures
        frame_text(symbols, filename_info, true, expand_frames) == frame_text(
            without_polls(symbols, symbols.len()),
            filename_info,
            false,
            expand_frames,
        ),
{
    lemma_inlined_without_polls(symbols, symbols.len(), filename_info);
}

} // verus!
