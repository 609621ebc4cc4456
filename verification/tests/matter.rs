use phosyncra::matter::{
    checked_output, discovery_outcome, duration_to_deciseconds, validate_node_id, ChipTool,
    ChipToolOutput, MatterColorLevel, MatterError, MatterTarget, NodeIdError,
};
use phosyncra::time::Duration;

fn output(status: i32, stdout: &str, stderr: &str) -> ChipToolOutput {
    ChipToolOutput { status, stdout: stdout.into(), stderr: stderr.into() }
}

#[test]
fn parses_decimal_and_hex_targets() {
    assert_eq!(
        "1234:1".parse::<MatterTarget>().unwrap(),
        MatterTarget { node_id: "1234".into(), endpoint: 1 }
    );

    assert_eq!(
        "0x1234:42".parse::<MatterTarget>().unwrap(),
        MatterTarget { node_id: "0x1234".into(), endpoint: 42 }
    );
}

#[test]
fn rejects_invalid_target() {
    assert!("abc:1".parse::<MatterTarget>().is_err());
    assert!("1234".parse::<MatterTarget>().is_err());
}

#[test]
fn target_errors_name_their_cause() {
    assert_eq!(MatterTarget::parse("1234"), Err(MatterError::MissingEndpointSeparator));
    assert_eq!(MatterTarget::parse("12:x"), Err(MatterError::InvalidEndpoint("x".into())));
    assert_eq!(MatterTarget::parse("12:70000"), Err(MatterError::InvalidEndpoint("70000".into())));
    assert_eq!(MatterTarget::parse(" :1"), Err(MatterError::NodeId(NodeIdError::Empty)));
    assert_eq!(MatterTarget::parse("0x:1"), Err(MatterError::NodeId(NodeIdError::NotNumeric)));
    assert_eq!(MatterTarget::parse("a:b:+7").unwrap_err(), MatterError::NodeId(NodeIdError::NotNumeric));
    assert_eq!(MatterTarget::parse("1:2:+7"), Err(MatterError::NodeId(NodeIdError::NotNumeric)));
    assert_eq!(MatterTarget::parse("12:+7").unwrap(), MatterTarget { node_id: "12".into(), endpoint: 7 });
    assert_eq!(MatterTarget::parse(" 12 :65535").unwrap().node_id, " 12 ");
    assert_eq!(MatterTarget { node_id: "0x1F".into(), endpoint: 3 }.to_text(), "0x1F:3");
    assert_eq!(validate_node_id(" 0XaF "), Ok(()));
    assert!(MatterTarget::new("12a".into(), 1).is_err());
}

#[test]
fn recognizes_chip_tool_timeout() {
    let output = ChipToolOutput {
        status: 1,
        stdout: String::new(),
        stderr: "CHIP Error 0x00000032: Timeout".into(),
    };

    assert!(output.is_timeout());
}

#[test]
fn combined_output_trims_and_joins() {
    assert_eq!(output(0, "  out \n", "\terr ").combined(), "out\nerr");
    assert_eq!(output(0, " out", "   ").combined(), "out");
    assert_eq!(output(0, "\n", "err").combined(), "err");
    assert_eq!(output(0, "", "").combined(), "");
    assert!(!output(1, "fine", "").is_timeout());
}

#[test]
fn failed_runs_are_errors() {
    assert!(checked_output(output(0, "a", "")).is_ok());
    let err = checked_output(output(3, " boom ", "")).unwrap_err();
    assert_eq!(err, MatterError::ChipToolFailed { status: 3, detail: "boom".into() });
    assert_eq!(err.message(), "chip-tool exited with status 3: boom");
    let quiet = checked_output(output(-1, "", "")).unwrap_err();
    assert_eq!(quiet.message(), "chip-tool exited with status -1");
    assert!(discovery_outcome(output(1, "", "CHIP Error 0x00000032: Timeout")).is_ok());
    assert!(discovery_outcome(output(1, "", "other")).is_err());
    assert_eq!(MatterError::InvalidEndpoint("x\"y".into()).message(), "invalid Matter endpoint \"x\\\"y\"");
}

#[test]
fn deciseconds_round_up_and_saturate() {
    assert_eq!(duration_to_deciseconds(Duration::from_millis(250)), 3);
    assert_eq!(duration_to_deciseconds(Duration::from_millis(200)), 2);
    assert_eq!(duration_to_deciseconds(Duration::zero()), 0);
    assert_eq!(duration_to_deciseconds(Duration::from_secs(100_000)), u16::MAX);
    let level = MatterColorLevel::from_scaled(127, 127, 254, Duration::from_millis(250));
    assert_eq!(level.transition_ds, 3);
}

#[test]
fn command_lines() {
    let tool = ChipTool::new("chip-tool".into())
        .with_storage_directory("/state".into())
        .with_commissioner_name("alpha".into());
    assert_eq!(tool.binary(), "chip-tool");
    assert_eq!(tool.storage_directory(), Some("/state"));
    let target = MatterTarget { node_id: "0x12".into(), endpoint: 1 };
    let args = tool.invocation(ChipTool::onoff_args(&target, true));
    assert_eq!(
        args,
        vec!["onoff", "on", "0x12", "1", "--commissioner-name", "alpha", "--storage-directory", "/state"]
    );
    assert_eq!(
        ChipTool::set_level_args(&target, 127, 3),
        vec!["levelcontrol", "move-to-level", "127", "3", "0", "0", "0x12", "1"]
    );
    assert_eq!(
        ChipTool::set_hue_saturation_args(&target, 10, 254, 0),
        vec!["colorcontrol", "move-to-hue-and-saturation", "10", "254", "0", "0", "0", "0x12", "1"]
    );
    assert_eq!(ChipTool::discover_args(), vec!["discover", "commissionables"]);
    assert_eq!(ChipTool::commission_args("1", " "), Err(MatterError::EmptySetupCode));
    assert_eq!(ChipTool::commission_args("x", "123"), Err(MatterError::NodeId(NodeIdError::NotNumeric)));
    assert_eq!(ChipTool::commission_args("1", "MT:123").unwrap(), vec!["pairing", "code", "1", "MT:123"]);
    let off = ChipTool::light_state_plan(&target, MatterColorLevel::from_scaled(0, 5, 5, Duration::zero()));
    assert_eq!(off, vec![vec!["onoff", "off", "0x12", "1"]]);
    let on = ChipTool::light_state_plan(&target, MatterColorLevel::from_scaled(9, 5, 6, Duration::zero()));
    assert_eq!(on.len(), 3);
    assert_eq!(on[0], vec!["onoff", "on", "0x12", "1"]);
    assert_eq!(on[2][2], "5");
    assert_eq!(ChipTool::new("x".into()).invocation(vec![]), Vec::<String>::new());
}

#[test]
fn default_chip_tool_is_found_on_the_search_path() {
    let tool = ChipTool::default();
    assert_eq!(tool.binary(), "chip-tool");
    assert_eq!(tool.storage_directory(), None);
    assert_eq!(tool.invocation(ChipTool::discover_args()), vec!["discover", "commissionables"]);
}

#[test]
fn target_text_reads_back_as_the_same_target() {
    for (node, endpoint) in [("1234", 1u16), ("0x1234", 42), (" 7 ", 65_535), ("0XaF", 0)] {
        let target = MatterTarget::new(node.into(), endpoint).unwrap();
        let text = target.to_text();
        assert_eq!(MatterTarget::parse(&text), Ok(target));
    }
    assert_eq!(MatterTarget::new("0x1234".into(), 9).unwrap().to_text(), "0x1234:9");
}
