use class_sync::class::{BlockNumber, ClassDefinition, P2PClassDefinition, PeerData, PeerId};
use class_sync::error::{SyncError, SyncError2};
use class_sync::felt::Felt;
use class_sync::layout::{
    verify_layout, ByteCodeOffset, EntryPoint, Layout, SelectorAndFunctionIndex,
    SelectorAndOffset, VerifyLayout,
};

const CAIRO: &str = r#" {
    "program": {"data": ["0x1", "0x2"], "builtins": [ ]},
    "abi": [{"type": "function", "name": "f"}],
    "entry_points_by_type": {
        "L1_HANDLER": [],
        "EXTERNAL": [
            {"selector": "0x1", "offset": "0x2a"},
            {"offset": 7, "selector": "0xAbc"}
        ],
        "CONSTRUCTOR": [{"selector": "0x0", "offset": "0x0"}]
    }
} "#;

const SIERRA: &str = r#"{
    "abi": "[{\"type\": \"impl\"}]",
    "sierra_program": ["0x1", "0x2", "0xff"],
    "contract_class_version": "0.1.0",
    "entry_points_by_type": {
        "EXTERNAL": [{"selector": "0x5", "function_idx": 3}],
        "L1_HANDLER": [{"selector": "0x6", "function_idx": 0}],
        "CONSTRUCTOR": []
    }
}"#;

fn felt(n: u64) -> Felt {
    Felt::from_u64(n)
}

fn cairo(text: &str) -> P2PClassDefinition {
    P2PClassDefinition::Cairo { block_number: BlockNumber(7), definition: text.as_bytes().to_vec() }
}

fn sierra(text: &str) -> P2PClassDefinition {
    P2PClassDefinition::Sierra {
        block_number: BlockNumber(8),
        sierra_definition: text.as_bytes().to_vec(),
    }
}

fn rejected(input: P2PClassDefinition) -> bool {
    VerifyLayout.map(input) == Err(SyncError2::BadClassLayout)
}

#[test]
fn cairo_class_is_parsed() {
    let class = VerifyLayout.map(cairo(CAIRO)).unwrap();
    assert_eq!(class.block_number, BlockNumber(7));
    assert_eq!(class.definition, ClassDefinition::Cairo(CAIRO.as_bytes().to_vec()));
    let Layout::Cairo(layout) = class.layout else {
        panic!("a Cairo class has a Cairo layout");
    };
    assert_eq!(layout.abi, br#"[{"type": "function", "name": "f"}]"#.to_vec());
    assert_eq!(layout.program, br#"{"data": ["0x1", "0x2"], "builtins": [ ]}"#.to_vec());
    assert_eq!(
        layout.entry_points_by_type.external,
        vec![
            SelectorAndOffset { selector: EntryPoint(felt(1)), offset: ByteCodeOffset(felt(0x2a)) },
            SelectorAndOffset { selector: EntryPoint(felt(0xabc)), offset: ByteCodeOffset(felt(7)) },
        ]
    );
    assert_eq!(layout.entry_points_by_type.l1_handler, vec![]);
    assert_eq!(
        layout.entry_points_by_type.constructor,
        vec![SelectorAndOffset { selector: EntryPoint(felt(0)), offset: ByteCodeOffset(felt(0)) }]
    );
}

#[test]
fn sierra_class_is_parsed() {
    let class = VerifyLayout.map(sierra(SIERRA)).unwrap();
    assert_eq!(class.block_number, BlockNumber(8));
    assert_eq!(class.definition, ClassDefinition::Sierra(SIERRA.as_bytes().to_vec()));
    let Layout::Sierra(layout) = class.layout else {
        panic!("a Sierra class has a Sierra layout");
    };
    assert_eq!(layout.abi, r#"[{"type": "impl"}]"#);
    assert_eq!(layout.sierra_program, vec![felt(1), felt(2), felt(0xff)]);
    assert_eq!(layout.contract_class_version, "0.1.0");
    assert_eq!(
        layout.entry_points_by_type.external,
        vec![SelectorAndFunctionIndex { selector: EntryPoint(felt(5)), function_idx: 3 }]
    );
    assert_eq!(
        layout.entry_points_by_type.l1_handler,
        vec![SelectorAndFunctionIndex { selector: EntryPoint(felt(6)), function_idx: 0 }]
    );
    assert_eq!(layout.entry_points_by_type.constructor, vec![]);
}

#[test]
fn form_is_taken_from_the_transport() {
    assert!(rejected(sierra(CAIRO)));
    assert!(rejected(cairo(SIERRA)));
}

#[test]
fn text_that_is_no_json_object_is_rejected() {
    assert!(rejected(cairo("")));
    assert!(rejected(cairo("not json")));
    assert!(rejected(cairo("[1, 2, 3]")));
    assert!(rejected(cairo("null")));
    assert!(rejected(sierra("\"abi\"")));
    assert!(rejected(cairo(&CAIRO[..CAIRO.len() - 4])));
    assert!(rejected(cairo(&format!("{CAIRO} trailing"))));
    assert!(rejected(cairo(&format!("{CAIRO}{CAIRO}"))));
}

#[test]
fn missing_member_is_rejected() {
    assert!(rejected(cairo(
        r#"{"abi": [], "entry_points_by_type": {"EXTERNAL": [], "L1_HANDLER": [], "CONSTRUCTOR": []}}"#
    )));
    assert!(rejected(cairo(
        r#"{"abi": [], "program": {}, "entry_points_by_type": {"EXTERNAL": [], "L1_HANDLER": []}}"#
    )));
    assert!(rejected(sierra(
        r#"{"abi": "", "sierra_program": [], "entry_points_by_type": {"EXTERNAL": [], "L1_HANDLER": [], "CONSTRUCTOR": []}}"#
    )));
}

#[test]
fn unknown_member_is_rejected() {
    assert!(rejected(cairo(
        r#"{"abi": [], "program": {}, "extra": 1, "entry_points_by_type": {"EXTERNAL": [], "L1_HANDLER": [], "CONSTRUCTOR": []}}"#
    )));
    assert!(rejected(cairo(
        r#"{"abi": [], "program": {}, "entry_points_by_type": {"EXTERNAL": [], "L1_HANDLER": [], "CONSTRUCTOR": [], "OTHER": []}}"#
    )));
    assert!(rejected(cairo(
        r#"{"abi": [], "program": {}, "entry_points_by_type": {"EXTERNAL": [{"selector": "0x1", "offset": "0x1", "more": 0}], "L1_HANDLER": [], "CONSTRUCTOR": []}}"#
    )));
}

#[test]
fn smallest_cairo_class_is_accepted() {
    let text =
        r#"{"abi":null,"program":0,"entry_points_by_type":{"EXTERNAL":[],"L1_HANDLER":[],"CONSTRUCTOR":[]}}"#;
    let class = VerifyLayout.map(cairo(text)).unwrap();
    let Layout::Cairo(layout) = class.layout else {
        panic!("a Cairo class has a Cairo layout");
    };
    assert_eq!(layout.abi, b"null".to_vec());
    assert_eq!(layout.program, b"0".to_vec());
    assert!(layout.entry_points_by_type.external.is_empty());
}

#[test]
fn malformed_entry_point_is_rejected() {
    let with_entry = |entry: &str| {
        format!(
            r#"{{"abi": [], "program": {{}}, "entry_points_by_type": {{"EXTERNAL": [{entry}], "L1_HANDLER": [], "CONSTRUCTOR": []}}}}"#
        )
    };
    assert!(!rejected(cairo(&with_entry(r#"{"selector": "0x1", "offset": "0x2"}"#))));
    assert!(!rejected(cairo(&with_entry(r#"{"selector": "0x1", "offset": 2}"#))));
    assert!(rejected(cairo(&with_entry(r#"{"selector": "0xzz", "offset": "0x2"}"#))));
    assert!(rejected(cairo(&with_entry(r#"{"selector": 1, "offset": "0x2"}"#))));
    assert!(rejected(cairo(&with_entry(r#"{"selector": "0x1", "offset": "two"}"#))));
    assert!(rejected(cairo(&with_entry(r#"{"selector": "0x1", "offset": -2}"#))));
    assert!(rejected(cairo(&with_entry(r#"{"selector": "0x1", "offset": 2.5}"#))));
    assert!(rejected(cairo(&with_entry(r#"{"selector": "0x1"}"#))));
    assert!(rejected(cairo(&with_entry(r#"["0x1", "0x2"]"#))));
    assert!(rejected(cairo(&with_entry(&format!(
        r#"{{"selector": "0x{}", "offset": "0x2"}}"#,
        "f".repeat(64)
    )))));
}

#[test]
fn malformed_sierra_member_is_rejected() {
    let with = |abi: &str, program: &str, version: &str, entry: &str| {
        format!(
            r#"{{"abi": {abi}, "sierra_program": {program}, "contract_class_version": {version}, "entry_points_by_type": {{"EXTERNAL": [{entry}], "L1_HANDLER": [], "CONSTRUCTOR": []}}}}"#
        )
    };
    let entry = r#"{"selector": "0x1", "function_idx": 0}"#;
    assert!(!rejected(sierra(&with("\"\"", "[]", "\"1\"", entry))));
    assert!(rejected(sierra(&with("[]", "[]", "\"1\"", entry))));
    assert!(rejected(sierra(&with("\"\"", "[1]", "\"1\"", entry))));
    assert!(rejected(sierra(&with("\"\"", "[\"0xg\"]", "\"1\"", entry))));
    assert!(rejected(sierra(&with("\"\"", "{}", "\"1\"", entry))));
    assert!(rejected(sierra(&with("\"\"", "[]", "1", entry))));
    assert!(rejected(sierra(&with("\"\"", "[]", "\"1\"", r#"{"selector": "0x1", "function_idx": "0"}"#))));
    assert!(rejected(sierra(&with("\"\"", "[]", "\"1\"", r#"{"selector": "0x1", "offset": "0x0"}"#))));
    assert!(rejected(sierra(&with(
        "\"\"",
        "[]",
        "\"1\"",
        r#"{"selector": "0x1", "function_idx": 18446744073709551616}"#
    ))));
    assert!(!rejected(sierra(&with(
        "\"\"",
        "[]",
        "\"1\"",
        r#"{"selector": "0x1", "function_idx": 18446744073709551615}"#
    ))));
}

#[test]
fn string_escapes_are_resolved() {
    let text = r#"{"abi": "aA\n", "sierra_program": [], "contract_class_version": "\"v\"", "entry_points_by_type": {"EXTERNAL": [], "L1_HANDLER": [], "CONSTRUCTOR": []}}"#;
    let class = VerifyLayout.map(sierra(text)).unwrap();
    let Layout::Sierra(layout) = class.layout else {
        panic!("a Sierra class has a Sierra layout");
    };
    assert_eq!(layout.abi, "aA\n");
    assert_eq!(layout.contract_class_version, "\"v\"");
}

#[test]
fn accepted_class_keeps_its_peer() {
    let peer = PeerId(vec![1, 2, 3]);
    let checked = verify_layout(PeerData::new(peer.clone(), sierra(SIERRA))).unwrap();
    assert_eq!(checked.peer, peer);
    assert_eq!(checked.data.block_number, BlockNumber(8));
    assert_eq!(checked.data.definition, ClassDefinition::Sierra(SIERRA.as_bytes().to_vec()));
    assert!(matches!(checked.data.layout, Layout::Sierra(_)));
}

#[test]
fn bad_layout_names_the_peer() {
    let peer = PeerId(vec![9, 9]);
    let outcome = verify_layout(PeerData::new(peer.clone(), cairo("{")));
    assert_eq!(outcome, Err(SyncError::BadClassLayout(peer.clone())));
    let outcome = verify_layout(PeerData::new(peer.clone(), sierra(CAIRO)));
    assert_eq!(outcome, Err(SyncError::BadClassLayout(peer)));
}
