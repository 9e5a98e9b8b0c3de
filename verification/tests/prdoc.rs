//! End-to-end tests of the record model: titles, numbers, filenames,
//! content, validation and loading.

use prdoc::common::{parse_pr_number, pr_number_digits, NumberError};
use prdoc::doc_filename::{DocFileName, FilenameError};
use prdoc::docfile::DocFile;
use prdoc::generate::GenerateCmd;
use prdoc::loader::{Loader, Target};
use prdoc::opts::CheckOpts;
use prdoc::report::{Reason, SchemaField, Violation};
use prdoc::schema::{parse_audience, Audience, FieldKind, Schema};
use prdoc::title::{Title, TitleError};
use prdoc::validator::{FileEntry, Validator};

fn bytes(s: &str) -> Vec<u8> {
    s.as_bytes().to_vec()
}

fn entry(name: &str, content: &str) -> FileEntry {
    FileEntry { name: bytes(name), content: Some(bytes(content)) }
}

const GOOD_CONTENT_42: &str = "number: 42\ntitle: x\naudience: node_dev\ndescription: d\n";

#[test]
fn title_normalizes_simple() {
    let t = Title::normalize(&bytes("Fix flaky test")).unwrap();
    assert_eq!(t.as_bytes(), &bytes("fix-flaky-test"));
}

#[test]
fn title_normalizes_punctuation_and_case() {
    let t = Title::normalize(&bytes("  Hello, World!  ")).unwrap();
    assert_eq!(t.as_bytes(), &bytes("hello--world"));
}

#[test]
fn title_rejects_empty_and_symbol_only() {
    assert_eq!(Title::normalize(&bytes("")), Err(TitleError::InvalidTitle));
    assert_eq!(Title::normalize(&bytes("   ")), Err(TitleError::InvalidTitle));
    assert_eq!(Title::normalize(&bytes("!?-...")), Err(TitleError::InvalidTitle));
}

#[test]
fn number_parses_positive() {
    assert_eq!(parse_pr_number(&bytes("42")), Ok(42));
    assert_eq!(parse_pr_number(&bytes("0042")), Ok(42));
    assert_eq!(parse_pr_number(&bytes("18446744073709551615")), Ok(u64::MAX));
}

#[test]
fn number_rejects_non_positive_and_non_numeric() {
    assert_eq!(parse_pr_number(&bytes("0")), Err(NumberError::InvalidNumber));
    assert_eq!(parse_pr_number(&bytes("000")), Err(NumberError::InvalidNumber));
    assert_eq!(parse_pr_number(&bytes("")), Err(NumberError::InvalidNumber));
    assert_eq!(parse_pr_number(&bytes("-1")), Err(NumberError::InvalidNumber));
    assert_eq!(parse_pr_number(&bytes("abc")), Err(NumberError::InvalidNumber));
    assert_eq!(parse_pr_number(&bytes("4 2")), Err(NumberError::InvalidNumber));
    assert_eq!(parse_pr_number(&bytes("18446744073709551616")), Err(NumberError::InvalidNumber));
}

#[test]
fn number_renders_digits() {
    assert_eq!(pr_number_digits(7), bytes("7"));
    assert_eq!(pr_number_digits(10), bytes("10"));
    assert_eq!(pr_number_digits(1234), bytes("1234"));
}

#[test]
fn filename_round_trips_number() {
    let t = Title::normalize(&bytes("Fix flaky test")).unwrap();
    let name = DocFileName::new(1234, Some(&t));
    let encoded = name.filename();
    assert_eq!(encoded, bytes("pr_1234_fix-flaky-test.prdoc"));
    let decoded = DocFileName::decode(&encoded).unwrap();
    assert_eq!(decoded.number, 1234);
    assert_eq!(decoded.title, bytes("fix-flaky-test"));
}

#[test]
fn filename_placeholder_without_title() {
    let name = DocFileName::new(9, None);
    let encoded = name.filename();
    assert_eq!(encoded, bytes("pr_9_no-title.prdoc"));
    assert_eq!(DocFileName::decode(&encoded).unwrap().number, 9);
}

#[test]
fn filename_rejects_malformed() {
    for bad in [
        "",
        "pr_.prdoc",
        "doc_12_x.prdoc",
        "pr_12_x.txt",
        "pr_0_x.prdoc",
        "pr_12x.prdoc",
        "readme.md",
        "pr_12",
    ] {
        assert_eq!(
            DocFileName::decode(&bytes(bad)),
            Err(FilenameError::MalformedFilename),
            "{bad} should be malformed"
        );
    }
}

#[test]
fn filename_allows_empty_title_remainder() {
    let d = DocFileName::decode(&bytes("pr_12_.prdoc")).unwrap();
    assert_eq!(d.number, 12);
    assert_eq!(d.title, bytes(""));
}

#[test]
fn generate_produces_expected_template() {
    let t = Title::normalize(&bytes("Fix flaky test")).unwrap();
    let r = GenerateCmd::build(1234, Some(&t));
    assert_eq!(r.filename, bytes("pr_1234_fix-flaky-test.prdoc"));
    assert_eq!(
        r.content,
        bytes("number: 1234\ntitle: fix-flaky-test\naudience: runtime_dev\ndescription: TODO\n")
    );
}

#[test]
fn generated_template_is_schema_valid() {
    let r = GenerateCmd::build(77, None);
    assert_eq!(r.doc.check(), vec![]);
    let parsed = DocFile::parse(&r.content).unwrap();
    assert_eq!(parsed, r.doc);
}

#[test]
fn generated_file_checks_clean() {
    let t = Title::normalize(&bytes("Fix flaky test")).unwrap();
    let r = GenerateCmd::build(1234, Some(&t));
    let files = vec![FileEntry { name: r.filename, content: Some(r.content) }];
    let report = Validator::validate(&files);
    assert_eq!(report.files.len(), 1);
    assert!(report.files[0].valid());
    assert!(report.all_valid());
}

#[test]
fn parse_reports_all_missing_fields() {
    let vs = DocFile::parse(&bytes("")).unwrap_err();
    assert_eq!(
        vs,
        vec![
            Violation::Schema(SchemaField::Number, Reason::Missing),
            Violation::Schema(SchemaField::Title, Reason::Missing),
            Violation::Schema(SchemaField::Audience, Reason::Missing),
            Violation::Schema(SchemaField::Description, Reason::Missing),
        ]
    );
}

#[test]
fn parse_collects_every_violation() {
    let content = "number: 0\ntitle: \naudience: nobody\ndescription: d\nnumber: 7\nfoo\nbar: 1\n";
    let vs = DocFile::parse(&bytes(content)).unwrap_err();
    assert_eq!(
        vs,
        vec![
            Violation::Schema(SchemaField::Number, Reason::BadNumber),
            Violation::Schema(SchemaField::Number, Reason::Duplicate),
            Violation::Schema(SchemaField::Title, Reason::Empty),
            Violation::Schema(SchemaField::Audience, Reason::BadAudience),
            Violation::MalformedLine(5),
            Violation::UnknownField(6),
        ]
    );
}

#[test]
fn parse_accepts_clean_content() {
    let d = DocFile::parse(&bytes(GOOD_CONTENT_42)).unwrap();
    assert_eq!(d.number, 42);
    assert_eq!(d.title, bytes("x"));
    assert_eq!(d.audience, Audience::NodeDev);
    assert_eq!(d.description, bytes("d"));
}

#[test]
fn parse_keeps_colons_inside_values() {
    let content = "number: 5\ntitle: a: b\naudience: runtime_user\ndescription: x y\n";
    let d = DocFile::parse(&bytes(content)).unwrap();
    assert_eq!(d.title, bytes("a: b"));
    assert_eq!(d.audience, Audience::RuntimeUser);
    assert_eq!(d.description, bytes("x y"));
}

#[test]
fn parse_ignores_blank_lines() {
    let content = "\nnumber: 5\n\ntitle: t\naudience: node_operator\n\ndescription: d\n\n";
    let d = DocFile::parse(&bytes(content)).unwrap();
    assert_eq!(d.number, 5);
    assert_eq!(d.audience, Audience::NodeOperator);
}

#[test]
fn render_round_trips_every_audience() {
    for a in [
        Audience::NodeDev,
        Audience::RuntimeDev,
        Audience::NodeOperator,
        Audience::RuntimeUser,
    ] {
        let d = DocFile { number: 3, title: bytes("t"), audience: a, description: bytes("d") };
        let parsed = DocFile::parse(&d.render()).unwrap();
        assert_eq!(parsed, d);
    }
}

#[test]
fn validator_orders_content_violations_before_mismatch() {
    let content = "number: 7\ntitle: t\naudience: nobody\ndescription: d\n";
    let files = vec![entry("pr_42_x.prdoc", content)];
    let report = Validator::validate(&files);
    assert_eq!(
        report.files[0].violations,
        vec![
            Violation::Schema(SchemaField::Audience, Reason::BadAudience),
            Violation::NumberMismatch,
        ]
    );
}

#[test]
fn audience_names_parse() {
    assert_eq!(parse_audience(&bytes("node_dev")), Some(Audience::NodeDev));
    assert_eq!(parse_audience(&bytes("runtime_dev")), Some(Audience::RuntimeDev));
    assert_eq!(parse_audience(&bytes("node_operator")), Some(Audience::NodeOperator));
    assert_eq!(parse_audience(&bytes("runtime_user")), Some(Audience::RuntimeUser));
    assert_eq!(parse_audience(&bytes("user")), None);
}

#[test]
fn schema_definition_lists_four_required_fields() {
    let def = Schema::definition();
    assert_eq!(def.len(), 4);
    assert_eq!(def[0].name, bytes("number"));
    assert_eq!(def[0].kind, FieldKind::PositiveInteger);
    assert_eq!(def[1].name, bytes("title"));
    assert_eq!(def[2].name, bytes("audience"));
    assert_eq!(def[2].kind, FieldKind::Enumerated);
    assert_eq!(def[3].name, bytes("description"));
    assert!(def.iter().all(|f| f.required));
}

#[test]
fn validator_reports_number_mismatch_alone() {
    let content = "number: 7\ntitle: x\naudience: node_dev\ndescription: d\n";
    let files = vec![entry("pr_42_x.prdoc", content)];
    let report = Validator::validate(&files);
    assert_eq!(report.files[0].violations, vec![Violation::NumberMismatch]);
}

#[test]
fn validator_reports_duplicates_for_both() {
    let files = vec![
        entry("pr_42_a.prdoc", GOOD_CONTENT_42),
        entry("pr_42_b.prdoc", GOOD_CONTENT_42),
        entry("pr_7_c.prdoc", "number: 7\ntitle: x\naudience: node_dev\ndescription: d\n"),
    ];
    let report = Validator::validate(&files);
    assert_eq!(report.files[0].violations, vec![Violation::DuplicateNumber]);
    assert_eq!(report.files[1].violations, vec![Violation::DuplicateNumber]);
    assert!(report.files[2].valid());
    assert!(!report.files[0].valid());
    assert!(!report.files[1].valid());
    assert!(!report.all_valid());
}

#[test]
fn validator_reports_malformed_name_and_stops_there() {
    let files = vec![entry("notes.txt", "junk")];
    let report = Validator::validate(&files);
    assert_eq!(report.files[0].violations, vec![Violation::MalformedFilename]);
}

#[test]
fn validator_reports_unreadable_file() {
    let files = vec![FileEntry { name: bytes("pr_5_x.prdoc"), content: None }];
    let report = Validator::validate(&files);
    assert_eq!(report.files[0].violations, vec![Violation::IoFailure]);
}

#[test]
fn loader_list_of_empty_directory_is_empty() {
    let files: Vec<FileEntry> = vec![];
    let (names, bad) = Loader::list(&files);
    assert!(names.is_empty());
    assert!(bad.is_empty());
}

#[test]
fn loader_list_decodes_and_reports() {
    let files = vec![
        entry("pr_42_a.prdoc", GOOD_CONTENT_42),
        entry("junk.bin", ""),
        entry("pr_7_b.prdoc", ""),
    ];
    let (names, bad) = Loader::list(&files);
    assert_eq!(names.len(), 2);
    assert_eq!(names[0].number, 42);
    assert_eq!(names[1].number, 7);
    assert_eq!(bad.len(), 1);
    assert_eq!(bad[0].name, bytes("junk.bin"));
    assert_eq!(bad[0].violations, vec![Violation::MalformedFilename]);
}

#[test]
fn loader_targets_one_number() {
    let files = vec![
        entry("pr_42_a.prdoc", GOOD_CONTENT_42),
        entry("pr_7_b.prdoc", "number: 7\ntitle: x\naudience: node_dev\ndescription: d\n"),
    ];
    let report = Loader::load(&files, &Target::Number(42));
    assert_eq!(report.files.len(), 1);
    assert_eq!(report.files[0].name, bytes("pr_42_a.prdoc"));
    assert!(report.files[0].valid());
}

#[test]
fn loader_targets_one_file() {
    let files = vec![
        entry("pr_42_a.prdoc", GOOD_CONTENT_42),
        entry("pr_7_b.prdoc", "number: 9\ntitle: x\naudience: node_dev\ndescription: d\n"),
    ];
    let report = Loader::load(&files, &Target::File(bytes("pr_7_b.prdoc")));
    assert_eq!(report.files.len(), 1);
    assert_eq!(report.files[0].violations, vec![Violation::NumberMismatch]);
}

#[test]
fn loader_number_target_marks_duplicates() {
    let files = vec![
        entry("pr_42_a.prdoc", GOOD_CONTENT_42),
        entry("pr_42_b.prdoc", GOOD_CONTENT_42),
        entry("pr_7_c.prdoc", "number: 7\ntitle: x\naudience: node_dev\ndescription: d\n"),
    ];
    let report = Loader::load(&files, &Target::Number(42));
    assert_eq!(report.files.len(), 2);
    assert_eq!(report.files[0].violations, vec![Violation::DuplicateNumber]);
    assert_eq!(report.files[1].violations, vec![Violation::DuplicateNumber]);
}

#[test]
fn loader_directory_takes_everything() {
    let files = vec![entry("pr_42_a.prdoc", GOOD_CONTENT_42), entry("junk", "")];
    let report = Loader::load(&files, &Target::Directory);
    assert_eq!(report.files.len(), 2);
    assert!(report.files[0].valid());
    assert_eq!(report.files[1].violations, vec![Violation::MalformedFilename]);
}

#[test]
fn check_opts_resolve_exclusive_targets() {
    let none = CheckOpts { file: None, directory: None, number: None };
    assert_eq!(none.target(), Some(Target::Directory));
    let by_file = CheckOpts { file: Some(bytes("pr_1_a.prdoc")), directory: None, number: None };
    assert_eq!(by_file.target(), Some(Target::File(bytes("pr_1_a.prdoc"))));
    let by_dir = CheckOpts { file: None, directory: Some(bytes("docs")), number: None };
    assert_eq!(by_dir.target(), Some(Target::Directory));
    let by_number = CheckOpts { file: None, directory: None, number: Some(5) };
    assert_eq!(by_number.target(), Some(Target::Number(5)));
    let clash = CheckOpts { file: Some(bytes("a")), directory: None, number: Some(5) };
    assert_eq!(clash.target(), None);
    let clash2 = CheckOpts { file: Some(bytes("a")), directory: Some(bytes("d")), number: None };
    assert_eq!(clash2.target(), None);
}
