//! Stack traces: which frames they keep, how they are told apart and how they are shown.
use backtrace::Backtrace;
use vstd::prelude::*;

use crate::backtraces::{FrameView, SymbolInfo, SymbolView};
use crate::callstack::{stringify_symbol, Callstack, DecoratedCallstack};
use crate::symbols::{FriendlySymbol, FriendlyView, SymbolMap, SymbolRegexes};

verus! {

/// Whether the frames of a stack trace are those of `ips` after the first three, in order and as they
/// are, as far as both reach, and nothing else.
pub open spec fn keeps(frames: Seq<u64>, ips: Seq<u64>, size: nat) -> bool {
    let end = if ips.len() < size {
        ips.len() as int
    } else {
        size as int
    };
    let kept = if end > 3 {
        end - 3
    } else {
        0
    };
    &&& frames.len() == size
    &&& kept > 0 ==> frames.subrange(0, kept) == ips.subrange(3, end)
    &&& forall|i: int| kept <= i < size ==> #[trigger] frames[i] == 0
}

/// A stack trace keeps the frames of its backtrace after the three of the profiler itself, in order,
/// as far as it has room, and zeros after them.
pub proof fn law_stack_traces_keep_the_frames_of_their_backtrace<const NF: usize>()
    ensures
        forall|ips: &[u64], c: Callstack<NF>| #[trigger]
            call_ensures(Callstack::<NF>::from_ips, (ips,), c) ==> keeps(c@, ips@, NF as nat),
        forall|bt: &Backtrace, c: Callstack<NF>| #[trigger]
            call_ensures(Callstack::<NF>::from_backtrace_unresolved, (bt,), c) ==> keeps(
                c@,
                crate::backtraces::frames_of(*bt).map_values(|f: FrameView| f.ip),
                NF as nat,
            ),
        forall|frames: Seq<FrameView>| #[trigger]
            crate::state::stack_of(frames).len() == 30 && keeps(
                crate::state::stack_of(frames),
                frames.map_values(|f: FrameView| f.ip),
                30,
            ),
{
    assert forall|ips: Seq<u64>, size: nat| #[trigger]
        keeps(crate::callstack::kept_frames(ips, size), ips, size) by {
        let frames = crate::callstack::kept_frames(ips, size);
        let end = if ips.len() < size {
            ips.len() as int
        } else {
            size as int
        };
        if end > 3 {
            assert(frames.subrange(0, end - 3) =~= ips.subrange(3, end));
        }
    }
    assert forall|ips: &[u64], c: Callstack<NF>| #[trigger]
        call_ensures(Callstack::<NF>::from_ips, (ips,), c) implies keeps(c@, ips@, NF as nat) by {
        assert(keeps(crate::callstack::kept_frames(ips@, NF as nat), ips@, NF as nat));
    }
    assert forall|bt: &Backtrace, c: Callstack<NF>| #[trigger]
        call_ensures(Callstack::<NF>::from_backtrace_unresolved, (bt,), c) implies keeps(
        c@,
        crate::backtraces::frames_of(*bt).map_values(|f: FrameView| f.ip),
        NF as nat,
    ) by {
        let ips = crate::backtraces::ips_of(*bt);
        assert(ips =~= crate::backtraces::frames_of(*bt).map_values(|f: FrameView| f.ip));
        assert(keeps(crate::callstack::kept_frames(ips, NF as nat), ips, NF as nat));
    }
    assert forall|frames: Seq<FrameView>| #[trigger]
        crate::state::stack_of(frames).len() == 30 && keeps(
            crate::state::stack_of(frames),
            frames.map_values(|f: FrameView| f.ip),
            30,
        ) by {
        let ips = crate::backtraces::frame_ips(frames);
        assert(ips =~= frames.map_values(|f: FrameView| f.ip));
        assert(keeps(crate::callstack::kept_frames(ips, 30), ips, 30));
    }
}

/// Whether `bytes` are the frames one after the other, each as its eight little-endian bytes.
pub open spec fn are_bytes_of(bytes: Seq<u8>, frames: Seq<u64>) -> bool {
    &&& bytes.len() == 8 * frames.len()
    &&& forall|i: int|
        0 <= i < frames.len() ==> bytes.subrange(8 * i, 8 * i + 8)
            == vstd::bytes::spec_u64_to_le_bytes(#[trigger] frames[i])
}

/// The bytes of a stack trace determine all of its frames.
pub proof fn law_bytes_determine_every_frame(bytes: Seq<u8>, a: Seq<u64>, b: Seq<u64>)
    requires
        are_bytes_of(bytes, a),
        are_bytes_of(bytes, b),
    ensures
        a == b,
{
    vstd::bytes::lemma_auto_spec_u64_to_from_le_bytes();
    assert forall|i: int| 0 <= i < a.len() implies a[i] == b[i] by {
        let here = bytes.subrange(8 * i, 8 * i + 8);
        assert(here == vstd::bytes::spec_u64_to_le_bytes(a[i]));
        assert(here == vstd::bytes::spec_u64_to_le_bytes(b[i]));
        assert(vstd::bytes::spec_u64_from_le_bytes(here) == a[i]);
        assert(vstd::bytes::spec_u64_from_le_bytes(here) == b[i]);
    }
    assert(a =~= b);
}

proof fn lemma_frame_bytes(frames: Seq<u64>, n: nat)
    requires
        n <= frames.len(),
    ensures
        crate::callstack::frame_bytes(frames, n).len() == 8 * n,
        forall|i: int|
            0 <= i < n ==> crate::callstack::frame_bytes(frames, n).subrange(8 * i, 8 * i + 8)
                == vstd::bytes::spec_u64_to_le_bytes(#[trigger] frames[i]),
    decreases n,
{
    if n > 0 {
        lemma_frame_bytes(frames, (n - 1) as nat);
        vstd::bytes::lemma_auto_spec_u64_to_from_le_bytes();
        let before = crate::callstack::frame_bytes(frames, (n - 1) as nat);
        let last = vstd::bytes::spec_u64_to_le_bytes(frames[n - 1]);
        let all = crate::callstack::frame_bytes(frames, n);
        assert(last.len() == 8);
        assert(all =~= before + last);
        assert forall|i: int| 0 <= i < n implies all.subrange(8 * i, 8 * i + 8)
            == vstd::bytes::spec_u64_to_le_bytes(#[trigger] frames[i]) by {
            if i < n - 1 {
                assert(all.subrange(8 * i, 8 * i + 8) =~= before.subrange(8 * i, 8 * i + 8));
            } else {
                assert(all.subrange(8 * i, 8 * i + 8) =~= last);
            }
        }
    }
}

/// The hash of a stack trace is the wyhash, with seed 17, of the bytes of every one of its frames.
pub proof fn law_every_frame_is_hashed<const NF: usize>(bytes: Seq<u8>, frames: Seq<u64>)
    requires
        are_bytes_of(bytes, frames),
    ensures
        crate::callstack::hash_of(frames) == crate::callstack::wyhash_of(17, bytes),
        forall|c: Callstack<NF>, h: u64|
            c@ == frames && #[trigger] call_ensures(Callstack::<NF>::compute_hash, (&c,), h) ==> h
                == crate::callstack::wyhash_of(17, bytes),
{
    lemma_frame_bytes(frames, frames.len());
    let hashed = crate::callstack::frame_bytes(frames, frames.len());
    assert forall|k: int| 0 <= k < bytes.len() implies bytes[k] == hashed[k] by {
        let i = k / 8;
        assert(0 <= i < frames.len() && 8 * i <= k < 8 * i + 8);
        assert(bytes.subrange(8 * i, 8 * i + 8) == vstd::bytes::spec_u64_to_le_bytes(frames[i]));
        assert(hashed.subrange(8 * i, 8 * i + 8) == vstd::bytes::spec_u64_to_le_bytes(frames[i]));
        assert(bytes.subrange(8 * i, 8 * i + 8)[k - 8 * i] == bytes[k]);
        assert(hashed.subrange(8 * i, 8 * i + 8)[k - 8 * i] == hashed[k]);
    }
    assert(bytes =~= hashed);
}

/// What is hashed of two stack traces of the same size is the same only if all their frames are.
pub proof fn law_different_stack_traces_are_hashed_from_different_bytes(a: Seq<u64>, b: Seq<u64>)
    requires
        a.len() == b.len(),
        a != b,
    ensures
        crate::callstack::frame_bytes(a, a.len()) != crate::callstack::frame_bytes(b, b.len()),
{
    lemma_frame_bytes(a, a.len());
    lemma_frame_bytes(b, b.len());
    if crate::callstack::frame_bytes(a, a.len()) == crate::callstack::frame_bytes(b, b.len()) {
        law_bytes_determine_every_frame(crate::callstack::frame_bytes(a, a.len()), a, b);
    }
}

proof fn lemma_depth(frames: Seq<u64>, from: nat)
    requires
        from <= frames.len(),
    ensures
        from <= crate::callstack::depth_from(frames, from) <= frames.len(),
        forall|i: int|
            from <= i < crate::callstack::depth_from(frames, from) ==> #[trigger] frames[i] != 0,
        crate::callstack::depth_from(frames, from) < frames.len()
            ==> frames[crate::callstack::depth_from(frames, from) as int] == 0,
    decreases frames.len() - from,
{
    if from < frames.len() && frames[from as int] != 0 {
        lemma_depth(frames, from + 1);
    }
}

/// The depth of a stack trace is where its first zero stands, or its end.
pub proof fn law_depth_is_where_the_zeros_start(frames: Seq<u64>)
    ensures
        ({
            let depth = crate::callstack::depth_from(frames, 0);
            &&& depth <= frames.len()
            &&& forall|i: int| 0 <= i < depth ==> #[trigger] frames[i] != 0
            &&& depth < frames.len() ==> frames[depth as int] == 0
        }),
{
    lemma_depth(frames, 0);
}

proof fn lemma_populated_entries(
    symbols: Map<u64, Seq<FriendlyView>>,
    frames: Seq<u64>,
    bt: Seq<FrameView>,
    n: nat,
)
    requires
        n <= frames.len(),
    ensures
        forall|ip: u64|
            crate::callstack::populated(symbols, frames, bt, n).contains_key(ip) <==> (
            symbols.contains_key(ip) || frames.take(n as int).contains(ip)),
        forall|ip: u64| #[trigger]
            symbols.contains_key(ip) ==> crate::callstack::populated(symbols, frames, bt, n)[ip]
                == symbols[ip],
        forall|j: int|
            0 <= j < n && !symbols.contains_key(#[trigger] frames[j]) && !frames.take(j).contains(
                frames[j],
            ) ==> crate::callstack::populated(symbols, frames, bt, n)[frames[j]]
                == crate::symbols::all_befriended(bt[j + 3].shown()),
    decreases n,
{
    let after = crate::callstack::populated(symbols, frames, bt, n);
    if n == 0 {
        assert(frames.take(0) =~= Seq::empty());
    } else {
        lemma_populated_entries(symbols, frames, bt, (n - 1) as nat);
        let before = crate::callstack::populated(symbols, frames, bt, (n - 1) as nat);
        let ip0 = frames[n - 1];
        assert(frames.take(n as int) =~= frames.take(n - 1).push(ip0));
        assert forall|ip: u64| frames.take(n as int).contains(ip) <==> (frames.take(
            n - 1,
        ).contains(ip) || ip == ip0) by {
            if frames.take(n - 1).contains(ip) {
                let front = frames.take(n - 1);
                let i = choose|i: int| 0 <= i < front.len() && front[i] == ip;
                assert(frames.take(n as int)[i] == ip);
            }
            if ip == ip0 {
                assert(frames.take(n as int)[n - 1] == ip);
            }
        }
        assert(before.contains_key(ip0) <==> (symbols.contains_key(ip0) || frames.take(
            n - 1,
        ).contains(ip0)));
        assert forall|j: int|
            0 <= j < n && !symbols.contains_key(#[trigger] frames[j]) && !frames.take(j).contains(
                frames[j],
            ) implies after[frames[j]] == crate::symbols::all_befriended(bt[j + 3].shown()) by {
            if j < n - 1 {
                assert(frames.take(n - 1)[j] == frames[j]);
                assert(before.contains_key(frames[j]));
                assert(before[frames[j]] == crate::symbols::all_befriended(bt[j + 3].shown()));
            }
        }
    }
}

/// Populating a symbol map makes an entry for each pointer of the stack trace that has none, from
/// what the backtrace shows for the first frame with that pointer, and makes no other.
pub proof fn law_populating_takes_the_symbols_of_the_frame(
    symbols: Map<u64, Seq<FriendlyView>>,
    frames: Seq<u64>,
    bt: Seq<FrameView>,
)
    ensures
        ({
            let depth = crate::callstack::depth_from(frames, 0);
            let after = crate::callstack::populated(symbols, frames, bt, depth);
            &&& forall|ip: u64| #[trigger]
                after.contains_key(ip) <==> (symbols.contains_key(ip) || frames.take(
                    depth as int,
                ).contains(ip))
            &&& forall|ip: u64| #[trigger] symbols.contains_key(ip) ==> after[ip] == symbols[ip]
            &&& forall|j: int|
                0 <= j < depth && !symbols.contains_key(#[trigger] frames[j]) && !frames.take(
                    j,
                ).contains(frames[j]) ==> {
                    &&& after[frames[j]].len() == bt[j + 3].shown().len()
                    &&& forall|i: int|
                        0 <= i < after[frames[j]].len() ==> #[trigger] after[frames[j]][i]
                            == crate::symbols::befriended(bt[j + 3].shown()[i])
                }
        }),
{
    lemma_depth(frames, 0);
    lemma_populated_entries(symbols, frames, bt, crate::callstack::depth_from(frames, 0));
}

/// Whether the `j`th frame stands before the first zero and is the first with its pointer, and the
/// pointer has no symbols yet.
pub open spec fn wants_symbols(
    symbols: Map<u64, Seq<FriendlyView>>,
    frames: Seq<u64>,
    j: int,
) -> bool {
    &&& 0 <= j < frames.len()
    &&& !frames.take(j + 1).contains(0)
    &&& !frames.take(j).contains(frames[j])
    &&& !symbols.contains_key(frames[j])
}

/// Whether a backtrace shows no symbols for a frame that wants some.
pub open spec fn lacks_symbols(
    symbols: Map<u64, Seq<FriendlyView>>,
    frames: Seq<u64>,
    bt: Seq<FrameView>,
) -> bool {
    exists|j: int| #[trigger]
        wants_symbols(symbols, frames, j) && (bt[j + 3].symbols is None
            || bt[j + 3].symbols->0.len() == 0)
}

/// Whether `after` is `before`, resolved throughout where it lacked symbols, with those that were there
/// kept, and left alone where it did not.
pub open spec fn resolved_for(
    symbols: Map<u64, Seq<FriendlyView>>,
    frames: Seq<u64>,
    before: Seq<FrameView>,
    after: Seq<FrameView>,
) -> bool {
    &&& !lacks_symbols(symbols, frames, before) ==> after == before
    &&& after.len() == before.len()
    &&& forall|i: int|
        0 <= i < after.len() ==> {
            &&& (#[trigger] after[i]).ip == before[i].ip
            &&& lacks_symbols(symbols, frames, before) ==> after[i].symbols is Some
            &&& before[i].symbols is Some ==> after[i].symbols == before[i].symbols
        }
}

pub(crate) proof fn lemma_wants_symbols(symbols: Map<u64, Seq<FriendlyView>>, frames: Seq<u64>, j: int)
    ensures
        wants_symbols(symbols, frames, j) <==> 0 <= j < crate::callstack::depth_from(frames, 0)
            && crate::callstack::newly_seen(symbols, frames, j),
{
    lemma_depth(frames, 0);
    let depth = crate::callstack::depth_from(frames, 0);
    if 0 <= j < frames.len() {
        let (upto, before) = (frames.take(j + 1), frames.take(j));
        if j < depth {
            assert forall|i: int| 0 <= i < upto.len() implies #[trigger] upto[i] != 0 by {
                assert(upto[i] == frames[i]);
            }
            assert(!upto.contains(0));
        } else {
            assert(upto[depth as int] == 0);
            assert(upto.contains(0));
        }
        if crate::callstack::newly_seen(symbols, frames, j) {
            assert forall|i: int| 0 <= i < before.len() implies #[trigger] before[i]
                != frames[j] by {
                assert(before[i] == frames[i]);
            }
            assert(!before.contains(frames[j]));
        }
        if !before.contains(frames[j]) {
            assert forall|i: int| 0 <= i < j implies #[trigger] frames[i] != frames[j] by {
                assert(before[i] == frames[i]);
            }
        }
    }
}

pub(crate) proof fn lemma_resolved_for(
    symbols: Map<u64, Seq<FriendlyView>>,
    frames: Seq<u64>,
    before: Seq<FrameView>,
    after: Seq<FrameView>,
)
    requires
        crate::backtraces::resolved_if(
            before,
            after,
            crate::callstack::needs_resolving(
                symbols,
                frames,
                before,
                crate::callstack::depth_from(frames, 0),
            ),
        ),
    ensures
        resolved_for(symbols, frames, before, after),
{
    assert forall|j: int|
        wants_symbols(symbols, frames, j) <==> 0 <= j < crate::callstack::depth_from(frames, 0)
            && crate::callstack::newly_seen(symbols, frames, j) by {
        lemma_wants_symbols(symbols, frames, j);
    }
    let depth = crate::callstack::depth_from(frames, 0);
    if lacks_symbols(symbols, frames, before) {
        let j = choose|j: int| #[trigger]
            wants_symbols(symbols, frames, j) && (before[j + 3].symbols is None
                || before[j + 3].symbols->0.len() == 0);
        assert(crate::callstack::newly_seen(symbols, frames, j));
        assert(before[j + 3].shown().len() == 0);
        assert(crate::callstack::needs_resolving(symbols, frames, before, depth));
    }
    if crate::callstack::needs_resolving(symbols, frames, before, depth) {
        let j = choose|j: int|
            0 <= j < depth && #[trigger] crate::callstack::newly_seen(symbols, frames, j)
                && before[j + crate::callstack::TOP_FRAMES_TO_SKIP].shown().len() == 0;
        assert(wants_symbols(symbols, frames, j));
        assert(lacks_symbols(symbols, frames, before));
    }
}

/// A backtrace is resolved exactly if it shows no symbols for a frame that wants some, and then the
/// symbol map is populated from it.
pub proof fn law_backtraces_are_resolved_where_symbols_are_wanted<const NF: usize>(
    c: Callstack<NF>,
    regexes: SymbolRegexes,
)
    ensures
        forall|bt: &mut Backtrace, m: &mut SymbolMap| #[trigger]
            call_ensures(Callstack::<NF>::populate_symbol_map, (&c, bt, m, &regexes), ()) ==> {
                let symbols = crate::symbols::symbol_views((*m)@);
                &&& resolved_for(
                    symbols,
                    c@,
                    crate::backtraces::frames_of(*bt),
                    crate::backtraces::frames_of(*final(bt)),
                )
                &&& crate::symbols::symbol_views(final(m)@) == crate::callstack::populated(
                    symbols,
                    c@,
                    crate::backtraces::frames_of(*final(bt)),
                    crate::callstack::depth_from(c@, 0),
                )
            },
{
    assert forall|bt: &mut Backtrace, m: &mut SymbolMap| #[trigger]
        call_ensures(
            Callstack::<NF>::populate_symbol_map,
            (&c, bt, m, &regexes),
            (),
        ) implies resolved_for(
        crate::symbols::symbol_views((*m)@),
        c@,
        crate::backtraces::frames_of(*bt),
        crate::backtraces::frames_of(*final(bt)),
    ) by {
        lemma_resolved_for(
            crate::symbols::symbol_views((*m)@),
            c@,
            crate::backtraces::frames_of(*bt),
            crate::backtraces::frames_of(*final(bt)),
        );
    }
}

/// The symbols of a frame are cleaned up one by one, in order.
pub proof fn law_every_symbol_is_cleaned_up(regexes: SymbolRegexes, symbols: Vec<SymbolInfo>)
    ensures
        forall|r: Vec<FriendlySymbol>| #[trigger]
            call_ensures(FriendlySymbol::from_symbols, (&regexes, &symbols), r) ==> {
                &&& r@.len() == symbols@.len()
                &&& forall|i: int|
                    0 <= i < r@.len() ==> (#[trigger] r@[i])@ == crate::symbols::befriended(
                        symbols@[i]@,
                    )
            },
{
    assert forall|r: Vec<FriendlySymbol>| #[trigger]
        call_ensures(FriendlySymbol::from_symbols, (&regexes, &symbols), r) implies ({
        &&& r@.len() == symbols@.len()
        &&& forall|i: int|
            0 <= i < r@.len() ==> (#[trigger] r@[i])@ == crate::symbols::befriended(symbols@[i]@)
    }) by {
        let views = symbols@.map_values(|s: SymbolInfo| s@);
        assert(crate::symbols::friendly_views(r@).len() == crate::symbols::all_befriended(
            views,
        ).len());
        assert forall|i: int| 0 <= i < r@.len() implies (#[trigger] r@[i])@
            == crate::symbols::befriended(symbols@[i]@) by {
            assert(crate::symbols::friendly_views(r@)[i] == crate::symbols::all_befriended(
                views,
            )[i]);
        }
    }
}

/// Whether cutting `pattern` out of `text` once leaves `result`, where nothing else is put in its
/// place.
pub open spec fn is_text_after(
    pattern: Seq<char>,
    text: Seq<char>,
    replacement: Seq<char>,
    result: Seq<char>,
) -> bool {
    if crate::symbols::regex_compiles(pattern) && crate::symbols::regex_replaced(
        pattern,
        text,
        replacement,
    ) is Some {
        crate::symbols::regex_replaced(pattern, text, replacement) == Some(result)
    } else {
        result == text
    }
}

/// Whether a pattern is found in a text.
pub open spec fn is_found(pattern: Seq<char>, text: Seq<char>, replacement: Seq<char>) -> bool {
    crate::symbols::regex_compiles(pattern) && crate::symbols::regex_replaced(
        pattern,
        text,
        replacement,
    ) is Some
}

/// A symbol is cleaned up field by field: its name loses only the last component; it polls a future
/// exactly if `::poll::` stands somewhere in its full name; its file name loses only the first of the
/// common prefixes that it has; its line is kept.
pub proof fn law_symbols_are_cleaned_up(s: SymbolView)
    ensures
        ({
            let f = crate::symbols::befriended(s);
            let rust = "^/rustc/\\w+/library/"@;
            let users = "^/Users/\\w+/.cargo/registry/src/github.com-\\w+/"@;
            let home = "^/home/\\w+/.cargo/registry/src/github.com-\\w+/"@;
            &&& s.name matches Some(name) ==> {
                &&& is_text_after("(::\\w+)$"@, name, ""@, f.friendly_name)
                &&& f.is_poll <==> exists|i: int|
                    0 <= i && i + "::poll::"@.len() <= name.len() && #[trigger] name.subrange(
                        i,
                        i + "::poll::"@.len(),
                    ) == "::poll::"@
            }
            &&& s.name is None ==> f.friendly_name == "<none>"@ && !f.is_poll
            &&& s.filename is None ==> f.shorter_filename.len() == 0
            &&& s.filename matches Some(Some(path)) ==> {
                &&& is_found(rust, path, "RUST:"@) ==> is_text_after(
                    rust,
                    path,
                    "RUST:"@,
                    f.shorter_filename,
                )
                &&& !is_found(rust, path, "RUST:"@) && is_found(users, path, "Cargo:"@)
                    ==> is_text_after(users, path, "Cargo:"@, f.shorter_filename)
                &&& !is_found(rust, path, "RUST:"@) && !is_found(users, path, "Cargo:"@)
                    ==> is_text_after(home, path, "Cargo:"@, f.shorter_filename)
            }
            &&& s.lineno matches Some(line) ==> f.line_no == line
            &&& s.lineno is None ==> f.line_no == 0
        }),
        forall|regexes: SymbolRegexes, info: SymbolInfo, r: FriendlySymbol|
            info@ == s && #[trigger] call_ensures(
                FriendlySymbol::from_symbol,
                (&regexes, &info),
                r,
            ) ==> r@ == crate::symbols::befriended(s),
{
}

/// A symbol is shown by its name, and on request by its file in quotes and its line below it.
pub proof fn law_symbols_are_shown_with_their_place(s: FriendlyView)
    ensures
        crate::callstack::symbol_text(s, false) == s.friendly_name,
        exists|line: Seq<char>| #[trigger]
            super::text::says(line, s.line_no as nat, 10) && crate::callstack::symbol_text(s, true)
                == s.friendly_name + "\n\t("@ + crate::text::in_quotes(s.shorter_filename) + ":"@
                + line + ")"@,
        forall|symbol: FriendlySymbol, with_filename: bool, r: String|
            symbol@ == s && #[trigger] call_ensures(
                stringify_symbol,
                (&symbol, with_filename),
                r,
            ) ==> r@ == crate::callstack::symbol_text(s, with_filename),
{
    super::text::law_numbers_read_back(s.line_no as nat);
    assert(super::text::says(crate::text::decimal(s.line_no as nat), s.line_no as nat, 10));
}

/// The lines that show one frame: its first symbol and, where frames are expanded and the first
/// symbol does not poll a future, each of the others but those that are left out.
pub open spec fn lines_of(
    symbols: Seq<FriendlyView>,
    filename_info: bool,
    filter_poll: bool,
    expand_frames: bool,
) -> Seq<Seq<char>> {
    let shown = symbols.drop_first().filter(|s: FriendlyView| !(filter_poll && s.is_poll));
    let first = "  "@ + crate::callstack::symbol_text(symbols[0], filename_info) + "\n"@;
    if symbols.len() == 0 {
        Seq::empty()
    } else if expand_frames && !symbols[0].is_poll {
        seq![first] + shown.map_values(
            |s: FriendlyView|
                "    > "@ + crate::callstack::symbol_text(s, filename_info) + "\n"@,
        )
    } else {
        seq![first]
    }
}

pub(crate) proof fn lemma_flatten_push(parts: Seq<Seq<char>>, part: Seq<char>)
    ensures
        parts.push(part).flatten_alt() == parts.flatten_alt() + part,
{
    assert(parts.push(part).drop_last() =~= parts);
}

proof fn lemma_inlined_lines(
    symbols: Seq<FriendlyView>,
    n: nat,
    filename_info: bool,
    filter_poll: bool,
)
    requires
        1 <= n <= symbols.len(),
    ensures
        crate::callstack::inlined_text(symbols, n, filename_info, filter_poll)
            == symbols.subrange(1, n as int).filter(
            |s: FriendlyView| !(filter_poll && s.is_poll),
        ).map_values(
            |s: FriendlyView| "    > "@ + crate::callstack::symbol_text(s, filename_info) + "\n"@,
        ).flatten_alt(),
    decreases n,
{
    let keep = |s: FriendlyView| !(filter_poll && s.is_poll);
    let line = |s: FriendlyView|
        "    > "@ + crate::callstack::symbol_text(s, filename_info) + "\n"@;
    let here = symbols.subrange(1, n as int);
    reveal(Seq::filter);
    if n == 1 {
        assert(here =~= Seq::empty());
        assert(here.filter(keep).map_values(line) =~= Seq::empty());
    } else {
        lemma_inlined_lines(symbols, (n - 1) as nat, filename_info, filter_poll);
        let last = symbols[n - 1];
        assert(here.drop_last() =~= symbols.subrange(1, n - 1));
        assert(here.last() == last);
        let before = symbols.subrange(1, n - 1).filter(keep);
        if keep(last) {
            assert(here.filter(keep) =~= before.push(last));
            assert(here.filter(keep).map_values(line) =~= before.map_values(line).push(line(last)));
            lemma_flatten_push(before.map_values(line), line(last));
            assert(before.map_values(line).flatten_alt() + line(last)
                =~= before.map_values(line).flatten_alt() + "    > "@
                + crate::callstack::symbol_text(last, filename_info) + "\n"@);
        } else {
            assert(here.filter(keep) =~= before);
        }
    }
}

proof fn lemma_frame_lines(
    symbols: Seq<FriendlyView>,
    filename_info: bool,
    filter_poll: bool,
    expand_frames: bool,
)
    ensures
        crate::callstack::frame_text(symbols, filename_info, filter_poll, expand_frames)
            == lines_of(symbols, filename_info, filter_poll, expand_frames).flatten_alt(),
{
    let all = lines_of(symbols, filename_info, filter_poll, expand_frames);
    if symbols.len() > 0 {
        let first = "  "@ + crate::callstack::symbol_text(symbols[0], filename_info) + "\n"@;
        let none = Seq::<Seq<char>>::empty();
        assert(none.flatten_alt() =~= Seq::empty());
        lemma_flatten_push(none, first);
        assert(none.push(first) =~= seq![first]);
        assert(seq![first].flatten_alt() =~= first);
        if expand_frames && !symbols[0].is_poll {
            lemma_inlined_lines(symbols, symbols.len(), filename_info, filter_poll);
            assert(symbols.drop_first() =~= symbols.subrange(1, symbols.len() as int));
            let rest = symbols.drop_first().filter(
                |s: FriendlyView| !(filter_poll && s.is_poll),
            ).map_values(
                |s: FriendlyView|
                    "    > "@ + crate::callstack::symbol_text(s, filename_info) + "\n"@,
            );
            vstd::seq_lib::lemma_flatten_concat(seq![first], rest);
            seq![first].lemma_flatten_and_flatten_alt_are_equivalent();
            rest.lemma_flatten_and_flatten_alt_are_equivalent();
            (seq![first] + rest).lemma_flatten_and_flatten_alt_are_equivalent();
        }
    }
}

proof fn lemma_frames_lines(
    frames: Seq<u64>,
    n: nat,
    symbols: Map<u64, Seq<FriendlyView>>,
    filename_info: bool,
    filter_poll: bool,
    expand_frames: bool,
)
    requires
        n <= frames.len(),
    ensures
        crate::callstack::frames_text(
            frames,
            n,
            symbols,
            filename_info,
            filter_poll,
            expand_frames,
        ) == frames.take(n as int).map_values(
            |ip: u64|
                if symbols.contains_key(ip) {
                    lines_of(symbols[ip], filename_info, filter_poll, expand_frames).flatten_alt()
                } else {
                    Seq::empty()
                },
        ).flatten_alt(),
    decreases n,
{
    let part = |ip: u64|
        if symbols.contains_key(ip) {
            lines_of(symbols[ip], filename_info, filter_poll, expand_frames).flatten_alt()
        } else {
            Seq::empty()
        };
    let parts = frames.take(n as int).map_values(part);
    if n == 0 {
        assert(parts =~= Seq::empty());
    } else {
        lemma_frames_lines(
            frames,
            (n - 1) as nat,
            symbols,
            filename_info,
            filter_poll,
            expand_frames,
        );
        let before = frames.take(n - 1).map_values(part);
        assert(parts =~= before.push(part(frames[n - 1])));
        lemma_flatten_push(before, part(frames[n - 1]));
        if symbols.contains_key(frames[n - 1]) {
            lemma_frame_lines(
                symbols[frames[n - 1]],
                filename_info,
                filter_poll,
                expand_frames,
            );
        } else {
            assert(before.flatten_alt() + Seq::<char>::empty() =~= before.flatten_alt());
        }
    }
}

/// A stack trace is shown as a heading with its hash in hexadecimal, and below it the lines of each of
/// its frames that has symbols, in order.
pub proof fn law_stack_traces_are_shown_frame_by_frame(
    frames: Seq<u64>,
    symbols: Map<u64, Seq<FriendlyView>>,
    filename_info: bool,
    filter_poll: bool,
    expand_frames: bool,
)
    ensures
        exists|hash: Seq<char>| #[trigger]
            super::text::says(hash, crate::callstack::hash_of(frames) as nat, 16)
                && crate::callstack::stack_text(
                frames,
                symbols,
                filename_info,
                filter_poll,
                expand_frames,
            ) == "Callback <hash = 0x"@ + hash + ">\n"@ + frames.map_values(
                |ip: u64|
                    if symbols.contains_key(ip) {
                        lines_of(
                            symbols[ip],
                            filename_info,
                            filter_poll,
                            expand_frames,
                        ).flatten_alt()
                    } else {
                        Seq::empty()
                    },
            ).flatten_alt(),
{
    super::text::law_numbers_read_back(crate::callstack::hash_of(frames) as nat);
    lemma_frames_lines(
        frames,
        frames.len(),
        symbols,
        filename_info,
        filter_poll,
        expand_frames,
    );
    assert(frames.take(frames.len() as int) =~= frames);
    let hash = crate::text::hexadecimal(crate::callstack::hash_of(frames) as nat);
    assert(super::text::says(hash, crate::callstack::hash_of(frames) as nat, 16));
}

/// What is shown of a stack trace is its own frames with the symbols and the choices that it was
/// decorated with; its own methods leave out polls, and show files only where they are asked for.
pub proof fn law_decorated_stack_traces_show_their_own_frames<'a, 'b, const NF: usize>()
    ensures
        forall|d: DecoratedCallstack<'a, 'b, NF>, r: String| #[trigger]
            call_ensures(DecoratedCallstack::<NF>::render, (&d,), r) ==> r@
                == crate::callstack::stack_text(
                d.cb@,
                crate::symbols::symbol_views(d.symbols@),
                d.filename_info,
                d.filter_poll,
                d.expand_frames,
            ),
        forall|
            c: &'a Callstack<NF>,
            m: &'b SymbolMap,
            expand: bool,
            d: DecoratedCallstack<'a, 'b, NF>,
        | #[trigger]
            call_ensures(Callstack::<NF>::with_symbols, (c, m, expand), d) ==> {
                &&& d.cb@ == c@ && d.symbols@ == m@
                &&& !d.filename_info && d.filter_poll && d.expand_frames == expand
            },
        forall|
            c: &'a Callstack<NF>,
            m: &'b SymbolMap,
            expand: bool,
            d: DecoratedCallstack<'a, 'b, NF>,
        | #[trigger]
            call_ensures(Callstack::<NF>::with_symbols_and_filename, (c, m, expand), d) ==> {
                &&& d.cb@ == c@ && d.symbols@ == m@
                &&& d.filename_info && d.filter_poll && d.expand_frames == expand
            },
{
}

/// What the contracts say of a symbol map is what it holds: every symbol of every pointer, with all
/// its fields.
pub proof fn law_symbol_maps_are_seen_whole(m: Map<u64, Vec<FriendlySymbol>>, ip: u64, i: int)
    requires
        m.contains_key(ip),
        0 <= i < m[ip]@.len(),
    ensures
        crate::symbols::symbol_views(m).dom() == m.dom(),
        crate::symbols::symbol_views(m)[ip].len() == m[ip]@.len(),
        ({
            let seen = crate::symbols::symbol_views(m)[ip][i];
            let held = m[ip]@[i];
            &&& seen.friendly_name == held.friendly_name@
            &&& seen.is_poll == held.is_poll
            &&& seen.shorter_filename == held.shorter_filename@
            &&& seen.line_no == held.line_no
        }),
{
    assert(crate::symbols::symbol_views(m).dom() =~= m.dom());
}

} // verus!
