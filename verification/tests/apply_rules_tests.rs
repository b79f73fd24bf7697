use transit_codes::apply_rules::{apply_rules, RuleFile};
use transit_codes::collection::{Collections, CollectionWithId};
use transit_codes::objects::{Line, Route, StopArea, StopPoint};
use transit_codes::report::ReportType;

fn rule_file(name: &str, content: &str) -> RuleFile {
    RuleFile { name: String::from(name), content: Ok(String::from(content)) }
}

fn collections_with_stop_point(id: &str) -> Collections {
    let mut c = Collections::new();
    c.stop_points.push(StopPoint { id: String::from(id), codes: Vec::new() });
    c
}

#[test]
fn end_to_end_example() {
    let mut collections = collections_with_stop_point("SP1");
    let files = vec![rule_file(
        "rules.txt",
        "object_type,object_id,object_system,object_code\nstop_point,SP1,NAV,42\nstop_point,SP2,NAV,43\n",
    )];
    let report = apply_rules(&mut collections, &files).unwrap();
    let sp1 = collections.stop_points.get(0);
    assert_eq!(sp1.codes, vec![(String::from("NAV"), String::from("42"))]);
    let warnings = report.warnings();
    assert_eq!(warnings.len(), 1);
    assert_eq!(
        warnings[0].0,
        "Error inserting code: object_codes.txt: object=stop_point,  object_id=SP2 not found"
    );
    assert_eq!(warnings[0].1, ReportType::ComplementaryObjectNotFound);
}

#[test]
fn fail_soft_on_bad_rows() {
    let mut collections = collections_with_stop_point("SP1");
    let files = vec![rule_file(
        "rules.txt",
        "object_type,object_id,object_system,object_code\nbus_shelter,SP1,NAV,41\nstop_point,SP1,NAV,42\n",
    )];
    let report = apply_rules(&mut collections, &files).unwrap();
    assert_eq!(
        collections.stop_points.get(0).codes,
        vec![(String::from("NAV"), String::from("42"))]
    );
    let warnings = report.warnings();
    assert_eq!(warnings.len(), 1);
    assert_eq!(warnings[0].0, "Error reading rules.txt: unknown object_type bus_shelter");
    assert_eq!(warnings[0].1, ReportType::ComplementaryCodeRulesRead);
}

#[test]
fn fail_soft_on_missing_target() {
    let mut collections = collections_with_stop_point("SP1");
    let files = vec![rule_file(
        "rules.txt",
        "object_type,object_id,object_system,object_code\nstop_point,SP9,NAV,42\n",
    )];
    let report = apply_rules(&mut collections, &files).unwrap();
    assert!(collections.stop_points.get(0).codes.is_empty());
    let warnings = report.warnings();
    assert_eq!(warnings.len(), 1);
    assert_eq!(
        warnings[0].0,
        "Error inserting code: object_codes.txt: object=stop_point,  object_id=SP9 not found"
    );
    assert_eq!(warnings[0].1, ReportType::ComplementaryObjectNotFound);
}

#[test]
fn fatal_on_inaccessible_file() {
    let mut collections = collections_with_stop_point("SP1");
    let files = vec![RuleFile {
        name: String::from("absent.txt"),
        content: Err(String::from("No such file or directory")),
    }];
    let err = apply_rules(&mut collections, &files).unwrap_err();
    assert_eq!(err, "absent.txt: No such file or directory");
    assert!(collections.stop_points.get(0).codes.is_empty());
}

#[test]
fn fatal_file_stops_before_any_application() {
    let mut collections = collections_with_stop_point("SP1");
    let files = vec![
        rule_file(
            "first.txt",
            "object_type,object_id,object_system,object_code\nstop_point,SP1,NAV,42\n",
        ),
        RuleFile { name: String::from("second.txt"), content: Err(String::from("denied")) },
    ];
    let err = apply_rules(&mut collections, &files).unwrap_err();
    assert_eq!(err, "second.txt: denied");
    assert!(collections.stop_points.get(0).codes.is_empty());
}

#[test]
fn idempotent_reapplication() {
    let content = "object_type,object_id,object_system,object_code\nstop_point,SP1,NAV,42\nstop_point,SP1,NAV,42\n";
    let mut once = collections_with_stop_point("SP1");
    apply_rules(&mut once, &vec![rule_file("r.txt", content)]).unwrap();

    let mut twice = collections_with_stop_point("SP1");
    apply_rules(&mut twice, &vec![rule_file("r.txt", content)]).unwrap();
    apply_rules(&mut twice, &vec![rule_file("r.txt", content)]).unwrap();

    assert_eq!(once.stop_points.get(0).codes, twice.stop_points.get(0).codes);
    assert_eq!(once.stop_points.get(0).codes.len(), 1);
}

#[test]
fn deterministic_warnings() {
    let content = "object_type,object_id,object_system,object_code\nghost,SP1,NAV,41\nstop_point,SP9,NAV,42\n";
    let mut c1 = collections_with_stop_point("SP1");
    let r1 = apply_rules(&mut c1, &vec![rule_file("r.txt", content)]).unwrap();
    let mut c2 = collections_with_stop_point("SP1");
    let r2 = apply_rules(&mut c2, &vec![rule_file("r.txt", content)]).unwrap();
    assert_eq!(r1.warnings(), r2.warnings());
    assert_eq!(r1.warnings().len(), 2);
}

#[test]
fn empty_file_yields_empty_report() {
    let mut collections = collections_with_stop_point("SP1");
    let report = apply_rules(&mut collections, &vec![rule_file("empty.txt", "")]).unwrap();
    assert_eq!(report.len(), 0);
    assert!(collections.stop_points.get(0).codes.is_empty());
}

#[test]
fn no_files_yields_empty_report() {
    let mut collections = collections_with_stop_point("SP1");
    let report = apply_rules(&mut collections, &Vec::new()).unwrap();
    assert_eq!(report.len(), 0);
}

#[test]
fn missing_header_column_warns_per_row() {
    let mut collections = collections_with_stop_point("SP1");
    let files = vec![rule_file(
        "rules.txt",
        "object_type,object_id\nstop_point,SP1\nstop_point,SP2\n",
    )];
    let report = apply_rules(&mut collections, &files).unwrap();
    let warnings = report.warnings();
    assert_eq!(warnings.len(), 2);
    assert_eq!(warnings[0].0, "Error reading rules.txt: missing column in header");
    assert_eq!(warnings[1].0, "Error reading rules.txt: missing column in header");
    assert!(collections.stop_points.get(0).codes.is_empty());
}

#[test]
fn short_row_warns() {
    let mut collections = collections_with_stop_point("SP1");
    let files = vec![rule_file(
        "rules.txt",
        "object_type,object_id,object_system,object_code\nstop_point,SP1,NAV\n",
    )];
    let report = apply_rules(&mut collections, &files).unwrap();
    let warnings = report.warnings();
    assert_eq!(warnings.len(), 1);
    assert_eq!(warnings[0].0, "Error reading rules.txt: missing field in row");
    assert!(collections.stop_points.get(0).codes.is_empty());
}

#[test]
fn crlf_and_reordered_columns() {
    let mut collections = collections_with_stop_point("SP1");
    let files = vec![rule_file(
        "rules.txt",
        "object_code,object_type,object_id,object_system\r\n42,stop_point,SP1,NAV\r\n",
    )];
    let report = apply_rules(&mut collections, &files).unwrap();
    assert_eq!(report.len(), 0);
    assert_eq!(
        collections.stop_points.get(0).codes,
        vec![(String::from("NAV"), String::from("42"))]
    );
}

#[test]
fn applies_to_every_kind() {
    let mut collections = Collections::new();
    collections.lines.push(Line { id: String::from("L1"), codes: Vec::new() });
    collections.routes.push(Route { id: String::from("R1"), codes: Vec::new() });
    collections.stop_points.push(StopPoint { id: String::from("P1"), codes: Vec::new() });
    collections.stop_areas.push(StopArea { id: String::from("A1"), codes: Vec::new() });
    let files = vec![rule_file(
        "rules.txt",
        "object_type,object_id,object_system,object_code\nline,L1,NAV,1\nroute,R1,NAV,2\nstop_point,P1,NAV,3\nstop_area,A1,NAV,4\n",
    )];
    let report = apply_rules(&mut collections, &files).unwrap();
    assert_eq!(report.len(), 0);
    assert_eq!(collections.lines.get(0).codes, vec![(String::from("NAV"), String::from("1"))]);
    assert_eq!(collections.routes.get(0).codes, vec![(String::from("NAV"), String::from("2"))]);
    assert_eq!(
        collections.stop_points.get(0).codes,
        vec![(String::from("NAV"), String::from("3"))]
    );
    assert_eq!(
        collections.stop_areas.get(0).codes,
        vec![(String::from("NAV"), String::from("4"))]
    );
}

#[test]
fn code_set_absorbs_existing_pair() {
    let mut collections = Collections::new();
    let mut sp = StopPoint { id: String::from("SP1"), codes: Vec::new() };
    sp.codes.push((String::from("NAV"), String::from("42")));
    collections.stop_points.push(sp);
    let files = vec![rule_file(
        "rules.txt",
        "object_type,object_id,object_system,object_code\nstop_point,SP1,NAV,42\nstop_point,SP1,NAV,43\n",
    )];
    apply_rules(&mut collections, &files).unwrap();
    assert_eq!(
        collections.stop_points.get(0).codes,
        vec![
            (String::from("NAV"), String::from("42")),
            (String::from("NAV"), String::from("43")),
        ]
    );
}

#[test]
fn bob() {
    let mut collections = Collections::new();
    collections.lines.push(Line { id: String::from("toto"), codes: Vec::new() });
    collections.lines.push(Line { id: String::from("tata"), codes: Vec::new() });
    assert_eq!(collections.lines.get_idx(&String::from("toto")), Some(0));
}

#[test]
fn collection_lookup_by_id() {
    let mut c: CollectionWithId<StopPoint> = CollectionWithId::new();
    c.push(StopPoint { id: String::from("a"), codes: Vec::new() });
    c.push(StopPoint { id: String::from("b"), codes: Vec::new() });
    assert_eq!(c.len(), 2);
    assert_eq!(c.get_idx(&String::from("b")), Some(1));
    assert_eq!(c.get_idx(&String::from("c")), None);
}
