use ying_profiler::callstack::{FriendlySymbol, Measurement, StackStats, StdCallstack};
use ying_profiler::flamegraph::{stack_block, stacks_fit, stacks_text, FoldedStacks};
use ying_profiler::sharded_map::ShardedMap;
use ying_profiler::symbols::SymbolMap;
use ying_profiler::thread_state::YingThreadLocal;
use ying_profiler::YingProfiler;

fn friendly(name: &str) -> FriendlySymbol {
    FriendlySymbol {
        friendly_name: name.to_owned(),
        is_poll: name.contains("::poll::"),
        shorter_filename: String::new(),
        line_no: 0,
    }
}

fn stats(ips: &[u64], bytes: u64) -> StackStats {
    let mut all = vec![1, 2, 3];
    all.extend_from_slice(ips);
    StackStats::new(StdCallstack::from_ips(&all), Some(bytes))
}

fn symbols() -> SymbolMap {
    let mut map = ShardedMap::with_capacity(0, None);
    map.insert(10, vec![friendly("leaf"), friendly("a::poll::b"), friendly("inlined")]);
    map.insert(20, vec![friendly("x::poll::y"), friendly("hidden")]);
    map.insert(30, vec![friendly("root")]);
    map.insert(40, vec![friendly("12"), friendly(""), friendly("+5"), friendly("b\nc`d 7 e")]);
    map
}

#[test]
fn block_has_a_line_for_each_shown_symbol() {
    let s = stats(&[10, 20, 99, 30], 640);
    assert_eq!(
        stack_block(&s, &symbols(), Measurement::AllocatedBytes),
        "\n  leaf\n  inlined\n  x::poll::y\n  root\n  640"
    );
}

#[test]
fn stack_without_symbols_has_one_line() {
    let s = stats(&[99], 5);
    assert_eq!(
        stack_block(&s, &symbols(), Measurement::RetainedBytes),
        "\n  <none>\n  5"
    );
    let mut profiler = YingProfiler::default();
    assert_eq!(
        s.dtrace_report(&mut profiler, &mut YingThreadLocal::new(), Measurement::RetainedBytes),
        "\n  <none>\n  5"
    );
}

#[test]
fn names_are_made_fit_for_a_line() {
    let s = stats(&[40], 8);
    assert_eq!(
        stack_block(&s, &symbols(), Measurement::AllocatedBytes),
        "\n  _12\n  _\n  _+5\n  b_c_d 7 e\n  8"
    );
}

#[test]
fn only_a_trailing_column_of_digits_is_altered() {
    let shown = |name: &str| {
        let mut map = ShardedMap::with_capacity(0, None);
        map.insert(50, vec![friendly(name)]);
        let text = stack_block(&stats(&[50], 1), &map, Measurement::AllocatedBytes);
        text[3..text.len() - 4].to_owned()
    };
    for same in [
        "<[u8; 32] as core::fmt::Debug>::fmt",
        "3d::turn",
        "a 12 b",
        "\u{9df9}::\u{9d89}",
        "a .5x",
        "+1x",
    ] {
        assert_eq!(shown(same), same);
    }
    assert_eq!(shown("a 12"), "a_12");
    assert_eq!(shown("a 1.5  "), "a_1.5  ");
    assert_eq!(shown("a::b 12+0x3"), "a::b_12+0x3");
    assert_eq!(shown("a::b 12 (c)"), "a::b_12 (c)");
    assert_eq!(shown("1 2"), "1_2");
    assert_eq!(shown("\u{3000}x"), "_\u{3000}x");
    assert_eq!(shown("12 \u{85}"), "_12 \u{85}");
}

#[test]
fn altered_names_draw_without_a_second_column() {
    for name in ["a 18446744073709551615", "a::b 12 (c)", "12", "\u{9df9} 9+1"] {
        let mut map = ShardedMap::with_capacity(0, None);
        map.insert(50, vec![friendly(name)]);
        let folded = FoldedStacks::fold(&vec![stats(&[50], 7)], &map, Measurement::AllocatedBytes);
        let svg = String::from_utf8(folded.draw().svg).unwrap();
        assert!(svg.contains("(7 samples, 100.00%)"), "{name}");
    }
}

#[test]
fn as_many_bytes_as_can_be_drawn_are_drawn() {
    let most = (usize::MAX / 100 - 16) as u64;
    let stacks = vec![stats(&[30], most)];
    assert!(stacks_fit(&stacks, Measurement::AllocatedBytes));
    let folded = FoldedStacks::fold(&stacks, &symbols(), Measurement::AllocatedBytes);
    assert!(folded.draw().result.is_ok());
    let more = vec![stats(&[30], most), stats(&[10], 1)];
    assert!(!stacks_fit(&more, Measurement::AllocatedBytes));
    assert!(!stacks_fit(&vec![stats(&[30], u64::MAX); 3], Measurement::AllocatedBytes));
}

#[test]
fn text_holds_one_block_after_the_other() {
    let stacks = vec![stats(&[30], 1), stats(&[99], 2)];
    assert_eq!(
        stacks_text(&stacks, &symbols(), Measurement::AllocatedBytes),
        "\n  root\n  1\n\n  <none>\n  2\n"
    );
    assert_eq!(stacks_text(&vec![], &symbols(), Measurement::AllocatedBytes), "");
}

#[test]
fn equal_stacks_are_folded_into_one_line() {
    let stacks = vec![
        stats(&[10, 30], 100),
        stats(&[30], 7),
        stats(&[10, 30, 99], 50),
    ];
    let folded = FoldedStacks::fold(&stacks, &symbols(), Measurement::AllocatedBytes);
    let lines = String::from_utf8(folded.lines().clone()).unwrap();
    assert_eq!(lines, "root 7\nroot;inlined;leaf 150\n");
}

#[test]
fn odd_names_fold_and_draw() {
    let stacks = vec![stats(&[40, 30], 3)];
    let folded = FoldedStacks::fold(&stacks, &symbols(), Measurement::AllocatedBytes);
    let svg = String::from_utf8(folded.draw().svg).unwrap();
    assert!(svg.contains("<svg"));
    assert!(svg.contains("b_c_d 7 e"));
}

#[test]
fn nothing_folds_to_nothing_and_cannot_be_drawn() {
    let folded = FoldedStacks::fold(&vec![], &symbols(), Measurement::AllocatedBytes);
    assert!(folded.lines().is_empty());
    let drawing = folded.draw();
    assert!(drawing.result.unwrap_err().contains("No stack counts found"));
    assert!(drawing.svg.starts_with(b"<?xml"));
}
