use probe_run::symbols::{
    check_symbols, code_range, find_range, function_name, is_cuttable, range_names_from, strip_hash,
    try_range_names_from, Name, RangeNames, Symbol,
};

fn symbol(name: &str, value: u64, size: u64, shndx: u16) -> Symbol {
    Symbol { name: Name::Text(name.to_string()), value, size, shndx }
}

fn names(entries: Vec<(u32, u32, &str)>) -> RangeNames {
    entries.into_iter().map(|(start, end, name)| (start..end, name.to_string())).collect()
}

#[test]
fn hash_is_stripped_from_the_end() {
    assert_eq!(
        strip_hash("core::panicking::panic::hd881d91ced85c2b0".to_string()),
        "core::panicking::panic"
    );
    assert_eq!(strip_hash("::hd881d91ced85c2b0".to_string()), "");
}

#[test]
fn names_without_a_hash_are_kept() {
    for name in vec!["main", "", "app::handler::xd881d91ced85c2b0", "a::hd881d91ced85c2b"] {
        assert_eq!(strip_hash(name.to_string()), name);
    }
}

#[test]
fn names_are_cut_only_between_characters() {
    assert!(is_cuttable("main"));
    assert!(is_cuttable("é::hd881d91ced85c2b0"));
    // the nineteenth byte from the end is the second one of a character
    assert!(!is_cuttable("éxxxxxxxxxxxxxxxxxx"));
}

#[test]
fn symbols_of_the_text_section_become_ranges() {
    let symbols = vec![
        symbol("main", 0x201, 0x20, 2),
        symbol("_ZN4core9panicking5panic17h0123456789abcdefE", 0x101, 0x10, 2),
        symbol("STATE", 0x2000_0000, 4, 3),
        symbol("__sbss", 0x2000_0000, 0, 2),
        symbol("_SEGGER_RTT", 0x2000_0100, 0x30, 3),
    ];
    let (range_names, rtt) = range_names_from(&symbols, Some(2));
    assert_eq!(
        range_names,
        names(vec![(0x100, 0x110, "core::panicking::panic"), (0x200, 0x220, "main")])
    );
    assert_eq!(rtt, Some(0x2000_0100));
}

#[test]
fn without_a_text_section_there_are_no_ranges() {
    let symbols = vec![symbol("main", 0x201, 0x20, 2)];
    let (range_names, rtt) = range_names_from(&symbols, None);
    assert!(range_names.is_empty());
    assert_eq!(rtt, None);
}

#[test]
fn last_control_block_counts_and_values_are_truncated() {
    let symbols = vec![
        symbol("_SEGGER_RTT", 0x2000_0000, 0, 3),
        symbol("_SEGGER_RTT", 0x7_2000_0200, 0, 3),
    ];
    let (_, rtt) = range_names_from(&symbols, Some(2));
    assert_eq!(rtt, Some(0x2000_0200));
}

#[test]
fn nameless_symbols_are_skipped() {
    let symbols = vec![
        Symbol { name: Name::Missing, value: 0x101, size: 8, shndx: 2 },
        symbol("b", 0x301, 8, 2),
    ];
    let (range_names, _) = range_names_from(&symbols, Some(2));
    assert_eq!(range_names, names(vec![(0x300, 0x308, "b")]));
}

#[test]
fn unusable_symbols_are_refused() {
    let unreadable = vec![Symbol { name: Name::Unreadable, value: 0, size: 0, shndx: 0 }];
    let beyond = vec![symbol("f", 0xffff_fffe, 2, 2)];
    let split = vec![symbol("éxxxxxxxxxxxxxxxxxx", 0x100, 2, 2)];
    for symbols in vec![unreadable, beyond, split] {
        assert!(!check_symbols(&symbols, Some(2)));
        assert!(try_range_names_from(&symbols, Some(2)).is_none());
    }
    let elsewhere = vec![symbol("f", 0xffff_fffe, 2, 3)];
    assert!(check_symbols(&elsewhere, Some(2)));
    assert!(try_range_names_from(&elsewhere, Some(2)).is_some());
}

#[test]
fn code_range_clears_the_thumb_bit() {
    let range = code_range(&symbol("x", 0x1_0000_0101, 0x10, 2), "shown".to_string());
    assert_eq!(range, (0x100..0x110, "shown".to_string()));
}

#[test]
fn every_range_starts_even_and_in_order() {
    let symbols: Vec<Symbol> =
        (0..50).map(|i| symbol("f", 0x1000 - 0x10 * i + i % 2, 0x10, 1)).collect();
    let (range_names, _) = range_names_from(&symbols, Some(1));
    assert_eq!(range_names.len(), 50);
    for pair in range_names.windows(2) {
        assert!(pair[0].0.start <= pair[1].0.start);
    }
    for entry in &range_names {
        assert_eq!(entry.0.start % 2, 0);
    }
}

#[test]
fn functions_are_found_by_address() {
    let names = names(vec![
        (0x100, 0x110, "a"),
        (0x110, 0x120, "b"),
        (0x200, 0x210, "c"),
        (0x300, 0x310, "d"),
    ]);
    assert_eq!(find_range(&names, 0x100), Some(0));
    assert_eq!(find_range(&names, 0x10f), Some(0));
    assert_eq!(find_range(&names, 0x110), Some(1));
    assert_eq!(find_range(&names, 0x205), Some(2));
    assert_eq!(find_range(&names, 0x30f), Some(3));
    for pc in vec![0, 0xff, 0x120, 0x1ff, 0x210, 0x310, u32::MAX] {
        assert_eq!(find_range(&names, pc), None);
        assert_eq!(function_name(&names, pc), "<unknown>");
    }
    assert_eq!(function_name(&names, 0x111), "b");
}

#[test]
fn lookup_agrees_with_binary_search() {
    let names: RangeNames = (0..37)
        .map(|i| (0x40 * i..0x40 * i + 0x20 + i % 3, format!("f{}", i)))
        .collect();
    for pc in 0..0x1000 {
        let expected = names
            .binary_search_by(|entry| {
                if entry.0.contains(&pc) {
                    std::cmp::Ordering::Equal
                } else if pc < entry.0.start {
                    std::cmp::Ordering::Greater
                } else {
                    std::cmp::Ordering::Less
                }
            })
            .ok();
        assert_eq!(find_range(&names, pc), expected);
    }
}

#[test]
fn nothing_is_found_among_no_functions() {
    let names: RangeNames = vec![];
    assert_eq!(find_range(&names, 0x100), None);
    assert_eq!(function_name(&names, 0x100), "<unknown>");
}
