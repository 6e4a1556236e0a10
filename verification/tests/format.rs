use runtimo_core::format::wall_to_markdown;

#[test]
fn empty_input() {
    assert_eq!(wall_to_markdown(""), "");
    assert_eq!(wall_to_markdown("   \n  \n"), "");
}

#[test]
fn heading_detection() {
    let md = wall_to_markdown("SYSTEM:\ncpu: amd");
    assert!(md.contains("# SYSTEM"));
    assert!(md.contains("cpu: amd"));
}

#[test]
fn bullet_list() {
    let md = wall_to_markdown("- item 1\n- item 2");
    assert!(md.contains("- item 1"));
    assert!(md.contains("- item 2"));
}

#[test]
fn numbered_list() {
    let md = wall_to_markdown("1. first\n2. second");
    assert!(md.contains("1. first"));
    assert!(md.contains("2. second"));
}

#[test]
fn paragraph_grouping() {
    let md = wall_to_markdown("line one\nline two\n\nnew para");
    assert!(md.contains("line one line two"));
    assert!(md.contains("new para"));
}

#[test]
fn multi_line_list_item() {
    let md = wall_to_markdown("- item one\n  continuation\n  more\n- item two");
    assert!(md.contains("- item one\n  continuation\n  more"));
    assert!(md.contains("- item two"));
}

#[test]
fn real_world_telemetry() {
    let input = "============================================================\n RUNTIMO TELEMETRY [12345]\n============================================================\n\n--- SYSTEM ---\n CPU   : AMD EPYC\n RAM   : 30Gi total, 8Gi free\n\n--- SERVICES ---\n Services: none detected";
    let md = wall_to_markdown(input);
    assert!(!md.is_empty());
    assert!(md.contains("RUNTIMO TELEMETRY"));
}

#[test]
fn capital_line_is_a_heading() {
    let md = wall_to_markdown("STATUS REPORT\nall is well");
    assert_eq!(md, "# STATUS REPORT\nall is well");
    // What counts as upper case goes by Unicode.
    let md = wall_to_markdown("ÄÖÜ ΑΒΓ\nall is well");
    assert_eq!(md, "# ÄÖÜ ΑΒΓ\nall is well");
    let md = wall_to_markdown("äöü αβγ\nall is well");
    assert_eq!(md, "äöü αβγ all is well");
    let md = wall_to_markdown("STATUS REPORT:\nall is well");
    assert_eq!(md, "## STATUS REPORT\nall is well");
}

#[test]
fn empty_lines_are_few() {
    let md = wall_to_markdown("alpha\n\n\n\n\n\n\nbeta\n\n\n\n- one\n\n\n\n\n- two");
    assert!(!md.contains("\n\n\n\n"));
    assert!(md.contains("alpha\n\n\nbeta"));
}

#[test]
fn markdown_has_no_white_space_around_it() {
    for wall in ["  plain words  \n\n", "\n\n- item\n\n\n\n\n", "TITLE\n \u{2003}\nmore\n", ".", "\u{a0}x"] {
        let md = wall_to_markdown(wall);
        assert!(!md.is_empty());
        assert_eq!(md.trim(), md);
    }
    for blank in ["", " ", "\r\n\t\u{3000}\n"] {
        assert_eq!(wall_to_markdown(blank), "");
    }
}
