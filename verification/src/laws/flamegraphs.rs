//! What stacks look like when they are written for a flamegraph.
use vstd::prelude::*;

use crate::flamegraph::{stack_block, stacks_fit, stacks_text, Drawing, FoldedStacks};
use crate::profiler::YingProfiler;
use crate::stack_stats::{Measurement, StackStats};
use crate::state::YingState;
use crate::symbols::{FriendlyView, SymbolMap};
use crate::thread_state::YingThreadLocal;
use crate::utils::{
    flamegraph_fits, fold_top_stacks, gen_flamegraph, gen_flamegraph_if_it_fits,
};

verus! {

/// The symbols of a frame that are shown: all of them, except that those inlined into the first one
/// are left out where they, or the first one, poll a future.
pub open spec fn shown_symbols(symbols: Seq<FriendlyView>) -> Seq<FriendlyView> {
    if symbols.len() == 0 {
        symbols
    } else if symbols[0].is_poll {
        seq![symbols[0]]
    } else {
        seq![symbols[0]] + symbols.skip(1).filter(|s: FriendlyView| !s.is_poll)
    }
}

/// The symbols of all frames of a stack trace that are shown, frame by frame, as far as they are
/// known.
pub open spec fn shown_frames(
    frames: Seq<u64>,
    symbols: Map<u64, Seq<FriendlyView>>,
) -> Seq<FriendlyView> {
    frames.filter(|f: u64| symbols.contains_key(f)).map_values(
        |f: u64| shown_symbols(symbols[f]),
    ).flatten_alt()
}

/// One line for each name, indented.
pub open spec fn indented(names: Seq<Seq<char>>) -> Seq<char> {
    names.map_values(|name: Seq<char>| "  "@ + name + "\n"@).flatten_alt()
}

/// Whether `text` is a stack with its count: after a blank line a line for each symbol that is shown,
/// or one that says that there is none, and in the end the bytes that are measured, in decimal and to
/// the byte.
pub open spec fn is_block(
    text: Seq<char>,
    stats: crate::stack_stats::StackStatsView,
    symbols: Map<u64, Seq<FriendlyView>>,
    measurement: Measurement,
) -> bool {
    let shown = shown_frames(stats.stack, symbols);
    let names = if shown.len() == 0 {
        seq!["<none>"@]
    } else {
        shown.map_values(|s: FriendlyView| crate::flamegraph::clean_name(s.friendly_name))
    };
    exists|n: Seq<char>| #[trigger]
        super::text::says(n, super::records::bytes_of(stats, measurement) as nat, 10) && text
            == "\n"@ + indented(names) + "  "@ + n
}

/// Texts one after the other, each on lines of its own.
pub open spec fn lines_of(blocks: Seq<Seq<char>>) -> Seq<char> {
    blocks.map_values(|block: Seq<char>| block + "\n"@).flatten_alt()
}

/// Whether `text` is made up of one such stack for each of `stacks`, in order, each on lines of its
/// own.
pub open spec fn are_blocks(
    text: Seq<char>,
    stacks: Seq<StackStats>,
    symbols: Map<u64, Seq<FriendlyView>>,
    measurement: Measurement,
) -> bool {
    exists|blocks: Seq<Seq<char>>| #[trigger]
        lines_of(blocks) == text && blocks.len() == stacks.len() && forall|i: int|
            0 <= i < stacks.len() ==> is_block(
                #[trigger] blocks[i],
                stacks[i]@,
                symbols,
                measurement,
            )
}

proof fn lemma_indented(names: Seq<Seq<char>>, n: nat)
    requires
        n <= names.len(),
    ensures
        crate::flamegraph::names_text(names, n) == indented(names.take(n as int)),
    decreases n,
{
    let line = |name: Seq<char>| "  "@ + name + "\n"@;
    if n == 0 {
        assert(names.take(0).map_values(line) =~= Seq::empty());
    } else {
        lemma_indented(names, (n - 1) as nat);
        let front = names.take(n - 1);
        assert(names.take(n as int).map_values(line) =~= front.map_values(line).push(
            line(names[n - 1]),
        ));
        super::stacks::lemma_flatten_push(front.map_values(line), line(names[n - 1]));
        assert(crate::flamegraph::names_text(names, n) =~= indented(names.take(n as int)));
    }
}

spec fn name_of(s: FriendlyView) -> Seq<char> {
    crate::flamegraph::clean_name(s.friendly_name)
}

proof fn lemma_frame_names(symbols: Seq<FriendlyView>, n: nat)
    requires
        n <= symbols.len(),
    ensures
        crate::flamegraph::frame_names(symbols, n) == shown_symbols(symbols.take(n as int)).map_values(
            |s: FriendlyView| name_of(s),
        ),
    decreases n,
{
    reveal(Seq::filter);
    let name = |s: FriendlyView| name_of(s);
    let keep = |s: FriendlyView| !s.is_poll;
    let here = symbols.take(n as int);
    if n == 0 {
        assert(shown_symbols(here).map_values(name) =~= Seq::empty());
    } else if n == 1 {
        assert(crate::flamegraph::frame_names(symbols, 0) =~= Seq::empty());
        assert(here.skip(1) =~= Seq::empty());
        assert(shown_symbols(here).map_values(name) =~= seq![name_of(symbols[0])]);
        assert(crate::flamegraph::frame_names(symbols, 1) =~= seq![name_of(symbols[0])]);
    } else {
        lemma_frame_names(symbols, (n - 1) as nat);
        let front = symbols.take(n - 1);
        assert(here.skip(1).drop_last() =~= front.skip(1));
        assert(here.skip(1).last() == symbols[n - 1]);
        assert(here[0] == symbols[0] && front[0] == symbols[0]);
        if symbols[0].is_poll {
        } else if symbols[n - 1].is_poll {
            assert(here.skip(1).filter(keep) =~= front.skip(1).filter(keep));
        } else {
            assert(here.skip(1).filter(keep) =~= front.skip(1).filter(keep).push(symbols[n - 1]));
            assert(shown_symbols(here) =~= shown_symbols(front).push(symbols[n - 1]));
            assert(shown_symbols(here).map_values(name) =~= shown_symbols(front).map_values(
                name,
            ).push(name_of(symbols[n - 1])));
        }
    }
}

proof fn lemma_stack_names(frames: Seq<u64>, n: nat, symbols: Map<u64, Seq<FriendlyView>>)
    requires
        n <= frames.len(),
    ensures
        crate::flamegraph::stack_names(frames, n, symbols) == shown_frames(
            frames.take(n as int),
            symbols,
        ).map_values(|s: FriendlyView| name_of(s)),
    decreases n,
{
    reveal(Seq::filter);
    let name = |s: FriendlyView| name_of(s);
    let known = |f: u64| symbols.contains_key(f);
    let shown = |f: u64| shown_symbols(symbols[f]);
    let here = frames.take(n as int);
    if n == 0 {
        assert(here.filter(known).map_values(shown) =~= Seq::empty());
        assert(shown_frames(here, symbols).map_values(name) =~= Seq::empty());
    } else {
        lemma_stack_names(frames, (n - 1) as nat, symbols);
        let front = frames.take(n - 1);
        let f = frames[n - 1];
        assert(here.drop_last() =~= front);
        assert(here.last() == f);
        if symbols.contains_key(f) {
            assert(here.filter(known) =~= front.filter(known).push(f));
            let before = front.filter(known).map_values(shown);
            assert(here.filter(known).map_values(shown) =~= before.push(shown(f)));
            assert(before.push(shown(f)).drop_last() =~= before);
            assert(shown_frames(here, symbols) =~= shown_frames(front, symbols) + shown_symbols(
                symbols[f],
            ));
            lemma_frame_names(symbols[f], symbols[f].len());
            assert(symbols[f].take(symbols[f].len() as int) =~= symbols[f]);
            assert(shown_frames(here, symbols).map_values(name) =~= shown_frames(
                front,
                symbols,
            ).map_values(name) + shown_symbols(symbols[f]).map_values(name));
        } else {
            assert(here.filter(known) =~= front.filter(known));
        }
    }
}

proof fn lemma_block(
    stats: crate::stack_stats::StackStatsView,
    symbols: Map<u64, Seq<FriendlyView>>,
    measurement: Measurement,
)
    ensures
        is_block(
            crate::flamegraph::block_text(
                crate::flamegraph::shown_names(stats.stack, symbols),
                stats.measured(measurement),
            ),
            stats,
            symbols,
            measurement,
        ),
{
    let names = crate::flamegraph::shown_names(stats.stack, symbols);
    let shown = shown_frames(stats.stack, symbols);
    lemma_stack_names(stats.stack, stats.stack.len(), symbols);
    assert(stats.stack.take(stats.stack.len() as int) =~= stats.stack);
    assert(shown.map_values(|s: FriendlyView| name_of(s)) =~= shown.map_values(
        |s: FriendlyView| crate::flamegraph::clean_name(s.friendly_name),
    ));
    lemma_indented(names, names.len());
    assert(names.take(names.len() as int) =~= names);
    super::stats::law_ranked_by_what_is_measured(stats);
    let bytes = super::records::bytes_of(stats, measurement) as nat;
    assert(bytes == stats.measured(measurement) as nat);
    super::text::law_numbers_read_back(bytes);
    assert(super::text::says(crate::text::decimal(bytes), bytes, 10));
}

proof fn lemma_blocks(
    stacks: Seq<StackStats>,
    symbols: Map<u64, Seq<FriendlyView>>,
    measurement: Measurement,
    n: nat,
)
    requires
        n <= stacks.len(),
    ensures
        are_blocks(
            crate::flamegraph::blocks_text(
                crate::flamegraph::blocks_of(stacks, symbols, measurement),
                n,
            ),
            stacks.take(n as int),
            symbols,
            measurement,
        ),
    decreases n,
{
    let line = |block: Seq<char>| block + "\n"@;
    let raw = crate::flamegraph::blocks_of(stacks, symbols, measurement);
    if n == 0 {
        let blocks = Seq::<Seq<char>>::empty();
        assert(blocks.map_values(line) =~= Seq::empty());
        assert(lines_of(blocks) =~= crate::flamegraph::blocks_text(raw, 0));
    } else {
        let m = (n - 1) as nat;
        lemma_blocks(stacks, symbols, measurement, m);
        let front = stacks.take(n - 1);
        let blocks = choose|blocks: Seq<Seq<char>>| #[trigger]
            lines_of(blocks) == crate::flamegraph::blocks_text(raw, m)
                && blocks.len() == front.len() && forall|i: int|
                0 <= i < front.len() ==> is_block(
                    #[trigger] blocks[i],
                    front[i]@,
                    symbols,
                    measurement,
                );
        lemma_block(stacks[n - 1]@, symbols, measurement);
        let block = crate::flamegraph::block_text(raw[n - 1].0, raw[n - 1].1);
        let all = blocks.push(block);
        assert(all.map_values(line) =~= blocks.map_values(line).push(line(block)));
        super::stacks::lemma_flatten_push(blocks.map_values(line), line(block));
        assert(lines_of(all) =~= crate::flamegraph::blocks_text(raw, n));
        assert forall|i: int| 0 <= i < n implies is_block(
            #[trigger] all[i],
            stacks.take(n as int)[i]@,
            symbols,
            measurement,
        ) by {
            if i < n - 1 {
                assert(is_block(blocks[i], front[i]@, symbols, measurement));
            }
        }
    }
}

/// A stack is written as the names of its frames, line by line, and then as many bytes as it has
/// allocated or, where retained bytes are measured, as it has allocated and not freed; several stacks
/// are written in order.
pub proof fn law_stacks_are_written_with_their_bytes(
    symbols: SymbolMap,
    measurement: Measurement,
)
    ensures
        forall|stats: StackStats, r: String| #[trigger]
            call_ensures(stack_block, (&stats, &symbols, measurement), r) ==> is_block(
                r@,
                stats@,
                crate::symbols::symbol_views(symbols@),
                measurement,
            ),
        forall|stats: StackStats, p: &mut YingProfiler, t: &mut YingThreadLocal, r: String| #[trigger]
            call_ensures(StackStats::dtrace_report, (&stats, p, t, measurement), r) ==> is_block(
                r@,
                stats@,
                (*p)@.state.symbols,
                measurement,
            ),
        forall|stacks: Vec<StackStats>, r: String| #[trigger]
            call_ensures(stacks_text, (&stacks, &symbols, measurement), r) ==> are_blocks(
                r@,
                stacks@,
                crate::symbols::symbol_views(symbols@),
                measurement,
            ),
        forall|stacks: Vec<StackStats>, r: FoldedStacks| #[trigger]
            call_ensures(FoldedStacks::fold, (&stacks, &symbols, measurement), r) ==> exists|
                text: Seq<char>,
            |
                are_blocks(text, stacks@, crate::symbols::symbol_views(symbols@), measurement)
                    && r@ == #[trigger] crate::flamegraph::folded(text),
{
    let views = crate::symbols::symbol_views(symbols@);
    assert forall|stats: StackStats, r: String| #[trigger]
        call_ensures(stack_block, (&stats, &symbols, measurement), r) implies is_block(
        r@,
        stats@,
        views,
        measurement,
    ) by {
        lemma_block(stats@, views, measurement);
    }
    assert forall|stats: StackStats, p: &mut YingProfiler, t: &mut YingThreadLocal, r: String|
        #[trigger]
        call_ensures(StackStats::dtrace_report, (&stats, p, t, measurement), r) implies is_block(
        r@,
        stats@,
        (*p)@.state.symbols,
        measurement,
    ) by {
        lemma_block(stats@, (*p)@.state.symbols, measurement);
    }
    assert forall|stacks: Vec<StackStats>, r: String| #[trigger]
        call_ensures(stacks_text, (&stacks, &symbols, measurement), r) implies are_blocks(
        r@,
        stacks@,
        views,
        measurement,
    ) by {
        lemma_blocks(stacks@, views, measurement, stacks@.len());
        assert(stacks@.take(stacks@.len() as int) =~= stacks@);
    }
    assert forall|stacks: Vec<StackStats>, r: FoldedStacks| #[trigger]
        call_ensures(FoldedStacks::fold, (&stacks, &symbols, measurement), r) implies exists|
        text: Seq<char>,
    | are_blocks(text, stacks@, views, measurement) && r@ == #[trigger] crate::flamegraph::folded(
        text,
    ) by {
        lemma_blocks(stacks@, views, measurement, stacks@.len());
        assert(stacks@.take(stacks@.len() as int) =~= stacks@);
        let text = crate::flamegraph::blocks_text(
            crate::flamegraph::blocks_of(stacks@, views, measurement),
            stacks@.len(),
        );
        assert(r@ == crate::flamegraph::folded(text));
    }
}

/// The number at the end of a stack tells any two stacks with different bytes apart, whatever else is
/// the same.
pub proof fn law_bytes_of_stacks_are_told_apart(
    a: crate::stack_stats::StackStatsView,
    b: crate::stack_stats::StackStatsView,
    symbols: Map<u64, Seq<FriendlyView>>,
    measurement: Measurement,
    text: Seq<char>,
)
    requires
        a.stack == b.stack,
        is_block(text, a, symbols, measurement),
        is_block(text, b, symbols, measurement),
    ensures
        super::records::bytes_of(a, measurement) == super::records::bytes_of(b, measurement),
{
    let shown = shown_frames(a.stack, symbols);
    let names = if shown.len() == 0 {
        seq!["<none>"@]
    } else {
        shown.map_values(|s: FriendlyView| crate::flamegraph::clean_name(s.friendly_name))
    };
    let head = "\n"@ + indented(names) + "  "@;
    let (x, y) = (
        super::records::bytes_of(a, measurement) as nat,
        super::records::bytes_of(b, measurement) as nat,
    );
    let m = choose|n: Seq<char>| #[trigger] super::text::says(n, x, 10) && text == head + n;
    let n = choose|n: Seq<char>| #[trigger] super::text::says(n, y, 10) && text == head + n;
    assert(m =~= text.skip(head.len() as int));
    assert(n =~= text.skip(head.len() as int));
}

/// The bytes of stacks together.
pub open spec fn sum_of_bytes(stacks: Seq<StackStats>, measurement: Measurement) -> int {
    stacks.map_values(|s: StackStats| super::records::bytes_of(s@, measurement)).fold_left(
        0int,
        |sum: int, bytes: int| sum + bytes,
    )
}

/// Stacks can be drawn exactly if their bytes together are at most a hundredth of what a `usize`
/// holds, less a margin.
pub proof fn law_stacks_fit_by_their_sum(measurement: Measurement, tl: YingThreadLocal)
    ensures
        forall|stacks: Vec<StackStats>, r: bool| #[trigger]
            call_ensures(stacks_fit, (&stacks, measurement), r) ==> (r <==> sum_of_bytes(
                stacks@,
                measurement,
            ) <= usize::MAX / 100 - 16),
        forall|s: YingState, r: bool, stacks: Seq<StackStats>|
            #[trigger] call_ensures(flamegraph_fits, (&s, &tl, measurement), r)
                && #[trigger] crate::state::are_top_k(s@.stats, measurement, 50, stacks) ==> (r
                <==> sum_of_bytes(stacks, measurement) <= usize::MAX / 100 - 16),
{
    assert forall|stacks: Vec<StackStats>, r: bool| #[trigger]
        call_ensures(stacks_fit, (&stacks, measurement), r) implies (r <==> sum_of_bytes(
        stacks@,
        measurement,
    ) <= usize::MAX / 100 - 16) by {
        lemma_sum(stacks@, measurement, stacks@.len());
        assert(stacks@.take(stacks@.len() as int) =~= stacks@);
    }
    assert forall|s: YingState, r: bool, stacks: Seq<StackStats>|
        #[trigger] call_ensures(flamegraph_fits, (&s, &tl, measurement), r)
            && #[trigger] crate::state::are_top_k(s@.stats, measurement, 50, stacks) implies (r
        <==> sum_of_bytes(stacks, measurement) <= usize::MAX / 100 - 16) by {
        lemma_sum(stacks, measurement, stacks.len());
        assert(stacks.take(stacks.len() as int) =~= stacks);
        if !r {
            let others = choose|others: Seq<StackStats>| #[trigger]
                crate::state::are_top_k(s@.stats, measurement, 50, others)
                    && !crate::flamegraph::bytes_fit(others, measurement);
            crate::utils::lemma_same_bytes(
                s@.stats,
                measurement,
                50,
                stacks,
                others,
                stacks.len(),
            );
        }
    }
}

proof fn lemma_sum(stacks: Seq<StackStats>, measurement: Measurement, n: nat)
    requires
        n <= stacks.len(),
    ensures
        crate::flamegraph::bytes_total(stacks, measurement, n) == sum_of_bytes(
            stacks.take(n as int),
            measurement,
        ),
    decreases n,
{
    reveal(Seq::fold_left);
    if n > 0 {
        lemma_sum(stacks, measurement, (n - 1) as nat);
        super::stats::law_ranked_by_what_is_measured(stacks[n - 1]@);
        let bytes = |s: StackStats| super::records::bytes_of(s@, measurement);
        let here = stacks.take(n as int).map_values(bytes);
        assert(here.drop_last() =~= stacks.take(n - 1).map_values(bytes));
        assert(here.last() == bytes(stacks[n - 1]));
    }
}

/// Whether `lines` are the folded lines of stacks as they are written that have the most bytes, at most
/// 50 of them.
pub open spec fn folds_the_top(
    s: crate::state::StateView,
    measurement: Measurement,
    lines: Seq<u8>,
) -> bool {
    exists|stacks: Seq<StackStats>, text: Seq<char>|
        {
            &&& #[trigger] super::records::are_the_top(s.stats, measurement, 50, stacks)
            &&& #[trigger] are_blocks(text, stacks, s.symbols, measurement)
            &&& lines == crate::flamegraph::folded(text)
        }
}

/// Whether this is a drawing of the stack traces with the most bytes.
pub open spec fn draws_the_top(
    s: crate::state::StateView,
    measurement: Measurement,
    drawing: Drawing,
) -> bool {
    exists|lines: Seq<u8>|
        {
            &&& #[trigger] folds_the_top(s, measurement, lines)
            &&& crate::flamegraph::is_drawing(lines, drawing.svg@)
            &&& drawing.result is Ok <==> crate::flamegraph::drawing_error(lines) is None
            &&& drawing.result is Ok ==> drawing.svg@.len() > 0
            &&& drawing.result is Err ==> crate::flamegraph::drawing_error(lines) == Some(
                drawing.result->Err_0@,
            )
        }
}

/// A flamegraph shows the stack traces with the most bytes, at most 50 of them, and nothing that is
/// recorded changes by it.
pub proof fn law_flamegraphs_show_the_top_stacks(tl: YingThreadLocal, measurement: Measurement)
    ensures
        forall|s: YingState, r: FoldedStacks| #[trigger]
            call_ensures(fold_top_stacks, (&s, &tl, measurement), r) ==> folds_the_top(
                s@,
                measurement,
                r@,
            ),
        forall|p: &mut YingProfiler, t: &mut YingThreadLocal, r: Drawing| #[trigger]
            call_ensures(gen_flamegraph, (p, t, measurement), r) ==> draws_the_top(
                (*p)@.state,
                measurement,
                r,
            ) && final(p)@.state == (*p)@.state && final(p)@.counters == (*p)@.counters,
        forall|p: &mut YingProfiler, t: &mut YingThreadLocal, r: Option<Drawing>| #[trigger]
            call_ensures(gen_flamegraph_if_it_fits, (p, t, measurement), r) ==> {
                &&& r is Some ==> draws_the_top((*p)@.state, measurement, r->0)
                &&& r is None ==> exists|stacks: Seq<StackStats>| #[trigger]
                    super::records::are_the_top((*p)@.state.stats, measurement, 50, stacks)
                        && sum_of_bytes(stacks, measurement) > usize::MAX / 100 - 16
                &&& final(p)@.state == (*p)@.state && final(p)@.counters == (*p)@.counters
            },
{
    assert forall|s: crate::state::StateView, lines: Seq<u8>| #[trigger]
        crate::utils::folds_top_stacks(s, measurement, lines) implies folds_the_top(
        s,
        measurement,
        lines,
    ) by {
        lemma_folds_the_top(s, measurement, lines);
    }
    assert forall|p: &mut YingProfiler, t: &mut YingThreadLocal, r: Drawing| #[trigger]
        call_ensures(gen_flamegraph, (p, t, measurement), r) implies draws_the_top(
        (*p)@.state,
        measurement,
        r,
    ) by {
        let lines = choose|lines: Seq<u8>| #[trigger]
            crate::utils::folds_top_stacks((*p)@.state, measurement, lines) && r.shows(lines);
        assert(folds_the_top((*p)@.state, measurement, lines));
    }
    assert forall|p: &mut YingProfiler, t: &mut YingThreadLocal, r: Option<Drawing>| #[trigger]
        call_ensures(gen_flamegraph_if_it_fits, (p, t, measurement), r) implies ({
        &&& r is Some ==> draws_the_top((*p)@.state, measurement, r->0)
        &&& r is None ==> exists|stacks: Seq<StackStats>| #[trigger]
            super::records::are_the_top((*p)@.state.stats, measurement, 50, stacks)
                && sum_of_bytes(stacks, measurement) > usize::MAX / 100 - 16
    }) by {
        if r is Some {
            let lines = choose|lines: Seq<u8>| #[trigger]
                crate::utils::folds_top_stacks((*p)@.state, measurement, lines) && r->0.shows(lines);
            assert(folds_the_top((*p)@.state, measurement, lines));
        } else {
            let k: usize = 50;
            let stacks = choose|stacks: Seq<StackStats>| #[trigger]
                crate::state::are_top_k((*p)@.state.stats, measurement, k as nat, stacks)
                    && !crate::flamegraph::bytes_fit(stacks, measurement);
            lemma_sum(stacks, measurement, stacks.len());
            assert(stacks.take(stacks.len() as int) =~= stacks);
            super::records::law_top_stack_traces_have_the_most_bytes(tl);
            assert(super::records::are_the_top((*p)@.state.stats, measurement, k, stacks));
        }
    }
}

proof fn lemma_folds_the_top(
    s: crate::state::StateView,
    measurement: Measurement,
    lines: Seq<u8>,
)
    requires
        crate::utils::folds_top_stacks(s, measurement, lines),
    ensures
        folds_the_top(s, measurement, lines),
{
    let stacks = choose|stacks: Seq<StackStats>| #[trigger]
        crate::state::are_top_k(s.stats, measurement, 50, stacks) && lines
            == crate::flamegraph::folded(
            crate::flamegraph::blocks_text(
                crate::flamegraph::blocks_of(stacks, s.symbols, measurement),
                stacks.len(),
            ),
        );
    super::records::law_top_stack_traces_have_the_most_bytes(arbitrary());
    let k: usize = 50;
    assert(crate::state::are_top_k(s.stats, measurement, k as nat, stacks));
    lemma_blocks(stacks, s.symbols, measurement, stacks.len());
    assert(stacks.take(stacks.len() as int) =~= stacks);
    let text = crate::flamegraph::blocks_text(
        crate::flamegraph::blocks_of(stacks, s.symbols, measurement),
        stacks.len(),
    );
    assert(super::records::are_the_top(s.stats, measurement, 50, stacks));
    assert(are_blocks(text, stacks, s.symbols, measurement));
}

/// What drawing comes to is a drawing of the folded lines, and it fails exactly where these cannot be
/// drawn, with the reason why.
pub proof fn law_drawings_show_the_folded_lines(lines: FoldedStacks)
    ensures
        forall|r: Drawing| #[trigger]
            call_ensures(FoldedStacks::draw, (&lines,), r) ==> {
                &&& crate::flamegraph::is_drawing(lines@, r.svg@)
                &&& r.result is Ok <==> crate::flamegraph::drawing_error(lines@) is None
                &&& r.result is Ok ==> r.svg@.len() > 0
                &&& r.result is Err ==> crate::flamegraph::drawing_error(lines@) == Some(
                    r.result->Err_0@,
                )
            },
        forall|r: &Vec<u8>| #[trigger]
            call_ensures(FoldedStacks::lines, (&lines,), r) ==> r@ == lines@,
{
}

/// A name is changed only as far as it has to be: an underscore stands for each line feed and each
/// backtick, and for a space only where a digit follows; every other character stays.  In front there
/// is at most one more underscore, and none where the name begins with a visible ASCII character
/// other than a digit or a plus sign.
pub proof fn law_names_keep_their_characters(name: Seq<char>)
    ensures
        ({
            let r = crate::flamegraph::clean_name(name);
            let shift = r.len() - name.len();
            &&& shift == 0 || (shift == 1 && r[0] == '_')
            &&& name.len() > 0 && '!' <= name[0] <= '~' && !('0' <= name[0] <= '9') && name[0]
                != '+' ==> shift == 0
            &&& forall|i: int|
                #![trigger name[i]]
                0 <= i < name.len() ==> {
                    &&& name[i] == '\n' || name[i] == '`' ==> r[i + shift] == '_'
                    &&& name[i] != '\n' && name[i] != '`' && !(name[i] == ' ' && i + 1 < name.len()
                        && '0' <= name[i + 1] <= '9') ==> r[i + shift] == name[i]
                    &&& r[i + shift] == name[i] || r[i + shift] == '_'
                }
        }),
{
    let cleaned = Seq::new(name.len(), |i: int| crate::flamegraph::clean_char(name, i));
    let r = crate::flamegraph::clean_name(name);
    let shift = r.len() - name.len();
    assert forall|i: int| #![trigger name[i]] 0 <= i < name.len() implies r[i + shift]
        == crate::flamegraph::clean_char(name, i) by {
        assert(r[i + shift] == cleaned[i]);
    }
    if name.len() > 0 && '!' <= name[0] <= '~' && !('0' <= name[0] <= '9') && name[0] != '+' {
        assert(cleaned[0] == name[0] || cleaned[0] == '_');
        assert(crate::flamegraph::is_solid(cleaned, 0));
    }
}

/// Cleaning a name makes it clean, and a clean name is left as it is.
pub proof fn law_clean_names_stay(name: Seq<char>)
    ensures
        crate::flamegraph::is_clean_name(crate::flamegraph::clean_name(name)),
        crate::flamegraph::is_clean_name(name) ==> crate::flamegraph::clean_name(name) == name,
{
    crate::flamegraph::lemma_clean_name(name);
    if crate::flamegraph::is_clean_name(name) {
        let cleaned = Seq::new(name.len(), |i: int| crate::flamegraph::clean_char(name, i));
        assert(cleaned =~= name);
    }
}

/// Whether there is nothing but digits and dots from `i` to `d`, a digit first, and nothing but spaces
/// from there to `p`.
pub open spec fn number_and_blanks(name: Seq<char>, i: int, d: int, p: int) -> bool {
    &&& 0 <= i < d <= p <= name.len()
    &&& '0' <= name[i] <= '9'
    &&& forall|k: int| i <= k < d ==> '0' <= #[trigger] name[k] <= '9' || name[k] == '.'
    &&& forall|k: int| d <= k < p ==> #[trigger] name[k] == ' '
}

/// An underscore stands for the space in front of a number exactly where the number, and any spaces
/// behind it, run up to the end of the name or to one of `+`, `(`, `<` and `-`.
pub proof fn law_spaces_before_numbers(name: Seq<char>, i: int, d: int, p: int)
    requires
        0 <= i < name.len(),
        name[i] == ' ',
        number_and_blanks(name, i + 1, d, p),
        p < name.len() ==> '!' <= name[p] <= '~' && (p == d ==> !('0' <= name[p] <= '9') && name[p]
            != '.'),
    ensures
        ({
            let r = crate::flamegraph::clean_name(name);
            let ends = p == name.len() || name[p] == '+' || name[p] == '(' || name[p] == '<'
                || name[p] == '-';
            r[i + r.len() - name.len()] == if ends {
                '_'
            } else {
                ' '
            }
        }),
{
    let cleaned = Seq::new(name.len(), |i: int| crate::flamegraph::clean_char(name, i));
    let r = crate::flamegraph::clean_name(name);
    let shift = r.len() - name.len();
    assert(r[i + shift] == cleaned[i]);
    if p == name.len() || crate::flamegraph::is_cut(name[p]) {
        assert(crate::flamegraph::is_column_to(name, i, d, p));
    } else {
        assert forall|e: int, q: int| !crate::flamegraph::is_column_to(name, i, e, q) by {
            if crate::flamegraph::is_column_to(name, i, e, q) {
                if e < d {
                    assert('0' <= name[e] <= '9' || name[e] == '.');
                    assert(e < q ==> crate::flamegraph::is_space(name[e]));
                } else if e > d {
                    assert(crate::flamegraph::is_digit(name[d]) || name[d] == '.');
                    assert(d < p ==> name[d] == ' ');
                } else if q < p {
                    assert(name[q] == ' ');
                } else if q > p {
                    assert(crate::flamegraph::is_space(name[p]));
                }
            }
        }
    }
}

} // verus!
