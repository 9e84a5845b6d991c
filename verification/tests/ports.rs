use portkill::cli::port::resolve_ports;

fn v(specs: &[&str]) -> Vec<String> {
    specs.iter().map(|s| s.to_string()).collect()
}

#[test]
fn single_port() {
    assert_eq!(resolve_ports(&v(&["3000"])).unwrap(), vec![3000]);
}

#[test]
fn multiple_ports() {
    assert_eq!(
        resolve_ports(&v(&["3000", "8080"])).unwrap(),
        vec![3000, 8080]
    );
}

#[test]
fn single_range() {
    assert_eq!(
        resolve_ports(&v(&["3000-3002"])).unwrap(),
        vec![3000, 3001, 3002]
    );
}

#[test]
fn mixed_singles_and_ranges() {
    assert_eq!(
        resolve_ports(&v(&["80", "3000-3001", "443"])).unwrap(),
        vec![80, 443, 3000, 3001]
    );
}

#[test]
fn overlapping_input_is_deduplicated() {
    assert_eq!(
        resolve_ports(&v(&["3000", "3000-3001", "3001"])).unwrap(),
        vec![3000, 3001]
    );
}

#[test]
fn rejects_out_of_range() {
    assert!(resolve_ports(&v(&["0"])).is_err());
    assert!(resolve_ports(&v(&["65536"])).is_err());
    assert!(resolve_ports(&v(&["70000"])).is_err());
    assert!(resolve_ports(&v(&["1-70000"])).is_err());
}

#[test]
fn rejects_non_numeric_and_bad_ranges() {
    assert!(resolve_ports(&v(&["abc"])).is_err());
    assert!(resolve_ports(&v(&["3000-"])).is_err());
    assert!(resolve_ports(&v(&["-3000"])).is_err());
    assert!(resolve_ports(&v(&["3002-3000"])).is_err());
    assert!(resolve_ports(&v(&[""])).is_err());
}

#[test]
fn port_one_is_valid() {
    assert_eq!(resolve_ports(&v(&["1"])).unwrap(), vec![1]);
}

fn refusal(specs: &[&str]) -> String {
    resolve_ports(&v(specs)).unwrap_err().to_string()
}

#[test]
fn each_mistake_has_its_message() {
    assert_eq!(refusal(&["abc"]), "invalid port `abc`: not a number");
    assert_eq!(refusal(&["  "]), "invalid port ``: empty port spec");
    assert_eq!(
        refusal(&["70000"]),
        "invalid port `70000`: port must be between 1 and 65535"
    );
    assert_eq!(
        refusal(&["1-70000"]),
        "invalid port `70000`: port must be between 1 and 65535"
    );
    assert_eq!(
        refusal(&[" 3000- "]),
        "invalid port `3000-`: a range needs both a start and an end"
    );
    assert_eq!(
        refusal(&["3002-3000"]),
        "invalid port `3002-3000`: range start is greater than its end"
    );
    assert_eq!(refusal(&["1-2-3"]), "invalid port `2-3`: not a number");
    assert_eq!(
        refusal(&["99999999999"]),
        "invalid port `99999999999`: not a number"
    );
}

#[test]
fn the_first_mistake_counts() {
    assert_eq!(refusal(&["80", "x", ""]), "invalid port `x`: not a number");
    assert_eq!(refusal(&["a-b"]), "invalid port `a`: not a number");
}

#[test]
fn white_space_and_signs_around_ports() {
    assert_eq!(resolve_ports(&v(&["\t80 \n"])).unwrap(), vec![80]);
    assert_eq!(resolve_ports(&v(&["+80"])).unwrap(), vec![80]);
    assert_eq!(refusal(&["80 - 81"]), "invalid port `80 `: not a number");
}

#[test]
fn order_and_repetition_do_not_matter() {
    assert_eq!(
        resolve_ports(&v(&["5-7", "3", "6"])).unwrap(),
        resolve_ports(&v(&["7", "3", "5", "6", "3"])).unwrap()
    );
    assert_eq!(
        resolve_ports(&v(&["1-65535"])).unwrap(),
        (1..=65535).collect::<Vec<u16>>()
    );
    assert!(resolve_ports(&[]).unwrap().is_empty());
}
