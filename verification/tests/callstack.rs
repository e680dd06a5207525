use std::hash::Hasher;

use backtrace::Backtrace;
use ying_profiler::backtraces::SymbolInfo;
use ying_profiler::callstack::{stringify_symbol, Callstack, FriendlySymbol, StdCallstack};
use ying_profiler::sharded_map::ShardedMap;
use ying_profiler::symbols::{SymbolMap, SymbolRegexes};

fn symbol(name: Option<&str>, filename: Option<&str>, lineno: Option<u32>) -> SymbolInfo {
    SymbolInfo {
        name: name.map(str::to_owned),
        filename: filename.map(|f| Some(f.to_owned())),
        lineno,
    }
}

fn friendly(name: &str, filename: &str, line_no: u32) -> FriendlySymbol {
    FriendlySymbol {
        friendly_name: name.to_owned(),
        is_poll: name.contains("::poll::"),
        shorter_filename: filename.to_owned(),
        line_no,
    }
}

#[test]
fn frames_after_the_skipped_ones_are_kept() {
    let ips: Vec<u64> = (1..=10).collect();
    let stack = Callstack::<8>::from_ips(&ips);
    assert_eq!(stack.frames(), &[4, 5, 6, 7, 8, 0, 0, 0]);
    let short = Callstack::<8>::from_ips(&ips[..5]);
    assert_eq!(short.frames(), &[4, 5, 0, 0, 0, 0, 0, 0]);
    let skipped = Callstack::<8>::from_ips(&ips[..3]);
    assert_eq!(skipped.frames(), &[0; 8]);
    assert_eq!(Callstack::<2>::from_ips(&ips).frames(), &[0; 2]);
}

#[test]
fn frames_of_a_backtrace_are_its_instruction_pointers() {
    let bt = Backtrace::new_unresolved();
    let stack = StdCallstack::from_backtrace_unresolved(&bt);
    let ips: Vec<u64> = bt.frames().iter().map(|f| f.ip() as u64).collect();
    assert!(ips.len() > 3);
    for i in 0..30 {
        let expected = if i + 3 < ips.len().min(30) { ips[i + 3] } else { 0 };
        assert_eq!(stack.frames()[i], expected);
    }
}

#[test]
fn hash_is_the_wyhash_of_the_frames() {
    let ips: Vec<u64> = (0..20).map(|i| i * 0x0123_4567_89ab).collect();
    let stack = StdCallstack::from_ips(&ips);
    let mut bytes = Vec::new();
    for frame in stack.frames() {
        bytes.extend_from_slice(&frame.to_le_bytes());
    }
    let mut hasher = wyhash::WyHash::with_seed(17);
    hasher.write(&bytes);
    assert_eq!(stack.compute_hash(), hasher.finish());
    assert_eq!(stack.compute_hash(), stack.clone().compute_hash());
    assert_ne!(stack.compute_hash(), StdCallstack::from_ips(&ips[1..]).compute_hash());
}

#[test]
fn symbol_names_lose_their_hash() {
    let regexes = SymbolRegexes::new();
    let name = |n: Option<&str>| {
        FriendlySymbol::from_symbol(&regexes, &symbol(n, None, None)).friendly_name
    };
    assert_eq!(
        name(Some("ying_example::insert_one::{{closure}}::h7eddb5f8ebb3289b")),
        "ying_example::insert_one::{{closure}}"
    );
    assert_eq!(name(Some("main")), "main");
    assert_eq!(name(Some("a::b<c::d>")), "a::b<c::d>");
    assert_eq!(name(None), "<none>");
}

#[test]
fn polling_calls_are_recognized() {
    let regexes = SymbolRegexes::new();
    let is_poll = |n: &str| {
        FriendlySymbol::from_symbol(&regexes, &symbol(Some(n), None, None)).is_poll
    };
    assert!(is_poll("tokio::runtime::Harness<T,S>::poll::{{closure}}::h0123"));
    assert!(is_poll(
        "<core::future::from_generator::GenFuture<T> as core::future::future::Future>::poll\
         ::h7a53098577c44da0"
    ));
    assert!(!is_poll("tokio::runtime::run::h0123"));
    assert!(!is_poll("poll"));
}

#[test]
fn future_polls_lose_their_hash_and_their_line() {
    let regexes = SymbolRegexes::new();
    let from = |name| FriendlySymbol::from_symbol(&regexes, &symbol(Some(name), None, None));
    let inlined = vec![
        from("ying_example::insert_one::{{closure}}::h7eddb5f8ebb3289b"),
        from("<core::future::from_generator::GenFuture<T> as core::future::future::Future>::poll::h7a53098577c44da0"),
        from("ying_example::main::{{closure}}::h33aa63760e836e2f"),
    ];
    assert_eq!(
        inlined[1].friendly_name,
        "<core::future::from_generator::GenFuture<T> as core::future::future::Future>::poll"
    );
    assert!(inlined[1].is_poll);
    let stack = StdCallstack::from_ips(&[1, 2, 3, 10]);
    let symbols = map_of(vec![(10, inlined)]);
    assert_eq!(
        stack.with_symbols(&symbols, true).render(),
        format!(
            "Callback <hash = 0x{:0x}>\n  ying_example::insert_one::{{{{closure}}}}\n    > \
             ying_example::main::{{{{closure}}}}\n",
            stack.compute_hash()
        )
    );
}

#[test]
fn file_names_are_abbreviated() {
    let regexes = SymbolRegexes::new();
    let short = |f: Option<&str>| {
        FriendlySymbol::from_symbol(&regexes, &symbol(None, f, None)).shorter_filename
    };
    assert_eq!(
        short(Some("/rustc/897e37553bba8b42751c67658967889d11ecd120/library/alloc/src/vec.rs")),
        "RUST:alloc/src/vec.rs"
    );
    assert_eq!(
        short(Some("/Users/me/.cargo/registry/src/github.com-1ecc6299db9ec823/moka/src/a.rs")),
        "Cargo:moka/src/a.rs"
    );
    assert_eq!(
        short(Some("/home/me/.cargo/registry/src/github.com-1ecc6299db9ec823/moka/src/a.rs")),
        "Cargo:moka/src/a.rs"
    );
    assert_eq!(short(Some("src/main.rs")), "src/main.rs");
    assert_eq!(short(None), "");
    let not_unicode = SymbolInfo {
        name: None,
        filename: Some(None),
        lineno: Some(7),
    };
    let s = FriendlySymbol::from_symbol(&regexes, &not_unicode);
    assert_eq!((s.shorter_filename.as_str(), s.line_no), ("", 7));
}

#[test]
fn symbols_are_printed_with_or_without_their_place() {
    let s = friendly("a::b", "src/\"odd\".rs", 42);
    assert_eq!(stringify_symbol(&s, false), "a::b");
    assert_eq!(stringify_symbol(&s, true), "a::b\n\t(\"src/\\\"odd\\\".rs\":42)");
}

fn map_of(entries: Vec<(u64, Vec<FriendlySymbol>)>) -> SymbolMap {
    let mut map = ShardedMap::with_capacity(10, None);
    for (ip, symbols) in entries {
        map.insert(ip, symbols);
    }
    map
}

fn sample_stack() -> (StdCallstack, SymbolMap) {
    let stack = StdCallstack::from_ips(&[1, 2, 3, 10, 20, 30, 40]);
    let symbols = map_of(vec![
        (
            10,
            vec![
                friendly("inner", "i.rs", 1),
                friendly("x::poll::y", "p.rs", 2),
                friendly("outer", "o.rs", 3),
            ],
        ),
        (
            20,
            vec![friendly("z::poll::w", "q.rs", 4), friendly("hidden", "h.rs", 5)],
        ),
        (30, vec![]),
    ]);
    (stack, symbols)
}

#[test]
fn decorated_stack_shows_one_line_per_frame() {
    let (stack, symbols) = sample_stack();
    assert_eq!(
        stack.with_symbols(&symbols, false).render(),
        format!(
            "Callback <hash = 0x{:0x}>\n  inner\n  z::poll::w\n",
            stack.compute_hash()
        )
    );
}

#[test]
fn expanded_stack_shows_inlined_symbols_but_not_polls() {
    let (stack, symbols) = sample_stack();
    assert_eq!(
        stack.with_symbols(&symbols, true).render(),
        format!(
            "Callback <hash = 0x{:0x}>\n  inner\n    > outer\n  z::poll::w\n",
            stack.compute_hash()
        )
    );
    let mut unfiltered = stack.with_symbols(&symbols, true);
    unfiltered.filter_poll = false;
    assert_eq!(
        unfiltered.render(),
        format!(
            "Callback <hash = 0x{:0x}>\n  inner\n    > x::poll::y\n    > outer\n  z::poll::w\n",
            stack.compute_hash()
        )
    );
}

#[test]
fn leaving_out_polls_is_not_having_them() {
    let stack = StdCallstack::from_ips(&[1, 2, 3, 10]);
    let with_polls = map_of(vec![(
        10,
        vec![
            friendly("a", "a.rs", 1),
            friendly("b::poll::c", "b.rs", 2),
            friendly("d", "d.rs", 3),
            friendly("e::poll::f", "e.rs", 4),
        ],
    )]);
    let without = map_of(vec![(10, vec![friendly("a", "a.rs", 1), friendly("d", "d.rs", 3)])]);
    let mut unfiltered = stack.with_symbols_and_filename(&without, true);
    unfiltered.filter_poll = false;
    assert_eq!(
        stack.with_symbols_and_filename(&with_polls, true).render(),
        unfiltered.render()
    );
}

#[test]
fn filenames_are_shown_on_request() {
    let (stack, symbols) = sample_stack();
    assert_eq!(
        stack.with_symbols_and_filename(&symbols, false).render(),
        format!(
            "Callback <hash = 0x{:0x}>\n  inner\n\t(\"i.rs\":1)\n  z::poll::w\n\t(\"q.rs\":4)\n",
            stack.compute_hash()
        )
    );
}

#[test]
fn populating_finds_the_symbols_of_every_frame() {
    let regexes = SymbolRegexes::new();
    let mut bt = Backtrace::new_unresolved();
    let stack = StdCallstack::from_backtrace_unresolved(&bt);
    let mut symbols: SymbolMap = ShardedMap::with_capacity(10, None);
    stack.populate_symbol_map(&mut bt, &mut symbols, &regexes);
    let mut checked = 0;
    for (i, ip) in stack.frames().iter().enumerate() {
        if *ip == 0 {
            assert!(!symbols.contains_key(0));
            continue;
        }
        let shown = symbols.get(*ip).unwrap();
        let resolved = bt.frames()[i + 3].symbols();
        assert_eq!(shown.len(), resolved.len());
        for (s, r) in shown.iter().zip(resolved) {
            assert_eq!(s.line_no, r.lineno().unwrap_or(0));
            if let Some(name) = r.name() {
                assert!(format!("{}", name).starts_with(&s.friendly_name));
                checked += 1;
            }
        }
    }
    assert!(checked > 0);
}

#[test]
fn populating_twice_changes_nothing() {
    let regexes = SymbolRegexes::new();
    let mut bt = Backtrace::new_unresolved();
    let stack = StdCallstack::from_backtrace_unresolved(&bt);
    let mut symbols: SymbolMap = ShardedMap::with_capacity(10, None);
    stack.populate_symbol_map(&mut bt, &mut symbols, &regexes);
    let first = stack.with_symbols_and_filename(&symbols, true).render();
    let len = symbols.len();
    // Not even a backtrace without frames is looked at
    let mut nothing = Backtrace::from(vec![]);
    stack.populate_symbol_map(&mut nothing, &mut symbols, &regexes);
    assert_eq!(symbols.len(), len);
    assert_eq!(stack.with_symbols_and_filename(&symbols, true).render(), first);
}

#[test]
fn populating_leaves_known_frames_alone() {
    let regexes = SymbolRegexes::new();
    let mut bt = Backtrace::new_unresolved();
    let stack = StdCallstack::from_backtrace_unresolved(&bt);
    let ip = stack.frames()[0];
    assert_ne!(ip, 0);
    let mut symbols = map_of(vec![(ip, vec![friendly("known", "k.rs", 9)])]);
    stack.populate_symbol_map(&mut bt, &mut symbols, &regexes);
    assert_eq!(symbols.get(ip).unwrap()[0].friendly_name, "known");
}
