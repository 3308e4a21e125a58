use probe_run::chips::{list_chips, ChipFamily};

#[test]
fn chips_are_listed_by_family() {
    let families = vec![
        ChipFamily {
            name: "nRF52".to_string(),
            variants: vec!["nRF52832_xxAA".to_string(), "nRF52840_xxAA".to_string()],
        },
        ChipFamily { name: "empty".to_string(), variants: vec![] },
    ];
    assert_eq!(
        list_chips(&families),
        vec![
            "nRF52",
            "    Variants:",
            "        nRF52832_xxAA",
            "        nRF52840_xxAA",
            "empty",
            "    Variants:",
        ]
    );
}

#[test]
fn no_families_are_no_lines() {
    assert!(list_chips(&vec![]).is_empty());
}
