use transit_codes::apply_rules::{read_complementary_code_rules_files, RuleFile};
use transit_codes::objects::ObjectType;
use transit_codes::report::{Report, ReportType};
use transit_codes::ser_from_bool;

fn rule_file(name: &str, content: &str) -> RuleFile {
    RuleFile { name: String::from(name), content: Ok(String::from(content)) }
}

#[test]
fn deduplicates_across_files() {
    let files = vec![
        rule_file(
            "a.txt",
            "object_type,object_id,object_system,object_code\nline,L1,NAV,7\nline,L1,NAV,7\n",
        ),
        rule_file(
            "b.txt",
            "object_type,object_id,object_system,object_code\nline,L1,NAV,7\nline,L2,NAV,8\n",
        ),
    ];
    let mut report = Report::new();
    let codes = read_complementary_code_rules_files(&files, &mut report).unwrap();
    assert_eq!(report.len(), 0);
    assert_eq!(codes.len(), 2);
    assert_eq!(codes[0].object_type, ObjectType::Line);
    assert_eq!(codes[0].object_id, "L1");
    assert_eq!(codes[0].object_system, "NAV");
    assert_eq!(codes[0].object_code, "7");
    assert_eq!(codes[1].object_id, "L2");
    assert_eq!(codes[1].object_code, "8");
}

#[test]
fn keeps_first_occurrence_order() {
    let files = vec![rule_file(
        "a.txt",
        "object_type,object_id,object_system,object_code\nroute,R2,NAV,2\nroute,R1,NAV,1\nroute,R2,NAV,2\n",
    )];
    let mut report = Report::new();
    let codes = read_complementary_code_rules_files(&files, &mut report).unwrap();
    assert_eq!(codes.len(), 2);
    assert_eq!(codes[0].object_id, "R2");
    assert_eq!(codes[1].object_id, "R1");
}

#[test]
fn unreadable_file_is_fatal_for_the_reader() {
    let files = vec![
        rule_file("a.txt", "object_type,object_id,object_system,object_code\nline,L1,NAV,7\n"),
        RuleFile { name: String::from("b.txt"), content: Err(String::from("denied")) },
    ];
    let mut report = Report::new();
    let err = read_complementary_code_rules_files(&files, &mut report).unwrap_err();
    assert_eq!(err, "b.txt: denied");
}

#[test]
fn warning_names_file_and_reason() {
    let files = vec![rule_file(
        "odd name.txt",
        "object_type,object_id,object_system,object_code\nmetro,M1,NAV,9\n",
    )];
    let mut report = Report::new();
    let codes = read_complementary_code_rules_files(&files, &mut report).unwrap();
    assert!(codes.is_empty());
    let warnings = report.warnings();
    assert_eq!(warnings.len(), 1);
    assert_eq!(warnings[0].0, "Error reading odd name.txt: unknown object_type metro");
    assert_eq!(warnings[0].1, ReportType::ComplementaryCodeRulesRead);
}

#[test]
fn report_keeps_insertion_order() {
    let mut report = Report::new();
    report.add_warning(String::from("first"), ReportType::ComplementaryCodeRulesRead);
    report.add_warning(String::from("second"), ReportType::ComplementaryObjectNotFound);
    assert_eq!(report.len(), 2);
    let warnings = report.warnings();
    assert_eq!(warnings[0], (String::from("first"), ReportType::ComplementaryCodeRulesRead));
    assert_eq!(warnings[1], (String::from("second"), ReportType::ComplementaryObjectNotFound));
}

#[test]
fn object_type_tags() {
    assert_eq!(ObjectType::Line.as_str(), "line");
    assert_eq!(ObjectType::Route.as_str(), "route");
    assert_eq!(ObjectType::StopPoint.as_str(), "stop_point");
    assert_eq!(ObjectType::StopArea.as_str(), "stop_area");
}

#[test]
fn bool_encodes_as_integer() {
    assert_eq!(ser_from_bool(&true), 1);
    assert_eq!(ser_from_bool(&false), 0);
}
