use herald::config::default_config;
use herald::decode::{decode, latin1_text, read_report, strip_line_breaks, ReportDecodeError};
use herald::ingest::{
    plan_message, report_id_from_subject, report_row, Ingest, MessagePlan, OrganizationMap, Outcome,
    ProcessedReports,
};
use herald::locate::{
    classify, find_report, kind_of_lowered, locate, parse_part_address, part_address_text,
    BodyStructure,
};
use herald::types::{Report, ReportFileType};
use std::io::Write;

fn leaf(ty: &str, subtype: &str) -> BodyStructure {
    BodyStructure::Basic { ty: ty.to_string(), subtype: subtype.to_string() }
}

fn multipart(bodies: Vec<BodyStructure>) -> BodyStructure {
    BodyStructure::Multipart { bodies }
}

fn zip_of(files: &[(&str, &[u8])]) -> Vec<u8> {
    let mut w = zip::ZipWriter::new(std::io::Cursor::new(Vec::new()));
    for (name, data) in files {
        w.start_file(*name, zip::write::FileOptions::default()).unwrap();
        w.write_all(data).unwrap();
    }
    w.finish().unwrap().into_inner()
}

fn gzip_of(data: &[u8]) -> Vec<u8> {
    let mut e = flate2::write::GzEncoder::new(Vec::new(), flate2::Compression::default());
    e.write_all(data).unwrap();
    e.finish().unwrap()
}

fn base64_bytes(data: &[u8]) -> Vec<u8> {
    base64::encode(data).into_bytes()
}

fn wrap_every(text: &[u8], n: usize) -> Vec<u8> {
    let mut out = Vec::new();
    for (i, b) in text.iter().enumerate() {
        if i > 0 && i % n == 0 {
            out.extend_from_slice(b"\r\n");
        }
        out.push(*b);
    }
    out
}

#[test]
fn second_of_three_children_is_part_two() {
    let root = multipart(vec![leaf("text", "plain"), leaf("application", "zip"), leaf("image", "png")]);
    let (address, kind) = locate(&root).unwrap();
    assert_eq!(address, vec![2]);
    assert_eq!(kind, ReportFileType::Zip);
}

#[test]
fn first_matching_part_wins() {
    let root = multipart(vec![
        BodyStructure::Text,
        leaf("application", "zip"),
        leaf("application", "gzip"),
    ]);
    let (address, kind) = find_report(&root, String::new()).unwrap();
    assert_eq!(address, "2");
    assert_eq!(kind, ReportFileType::Zip);
}

#[test]
fn root_attachment_is_part_one() {
    let (address, kind) = find_report(&leaf("application", "gzip"), String::new()).unwrap();
    assert_eq!(address, "1");
    assert_eq!(kind, ReportFileType::Gzip);
    assert_eq!(locate(&leaf("application", "gzip")).unwrap().0, vec![1]);
}

#[test]
fn nested_attachment_has_dotted_address() {
    let inner = multipart(vec![leaf("text", "html"), leaf("Application", "GZIP")]);
    let root = multipart(vec![BodyStructure::Text, inner]);
    let (address, kind) = locate(&root).unwrap();
    assert_eq!(address, vec![2, 2]);
    assert_eq!(kind, ReportFileType::Gzip);
    assert_eq!(part_address_text(&address), "2.2");
    assert_eq!(find_report(&root, "3".to_string()).unwrap().0, "3.2.2");
}

#[test]
fn embedded_messages_and_text_are_not_searched() {
    let root = multipart(vec![BodyStructure::Message, BodyStructure::Text, leaf("image", "png")]);
    assert!(locate(&root).is_none());
    assert!(find_report(&root, String::new()).is_none());
    assert!(locate(&multipart(vec![])).is_none());
}

#[test]
fn classification_ignores_case() {
    assert_eq!(classify("APPLICATION", "Zip"), Some(ReportFileType::Zip));
    assert_eq!(classify("application", "x-gzip"), None);
    assert_eq!(kind_of_lowered("application", "gzip"), Some(ReportFileType::Gzip));
    assert_eq!(kind_of_lowered("Application", "gzip"), None);
}

#[test]
fn part_address_round_trips() {
    let address = vec![1, 12, 3];
    let text = part_address_text(&address);
    assert_eq!(text, "1.12.3");
    assert_eq!(parse_part_address(&text), Some(address));
    assert_eq!(parse_part_address("7"), Some(vec![7]));
}

#[test]
fn malformed_part_addresses_are_refused() {
    assert_eq!(parse_part_address(""), None);
    assert_eq!(parse_part_address("1."), None);
    assert_eq!(parse_part_address(".1"), None);
    assert_eq!(parse_part_address("1..2"), None);
    assert_eq!(parse_part_address("1.a"), None);
    assert_eq!(parse_part_address("99999999999999999999999"), None);
}

#[test]
fn zip_with_one_entry_decodes() {
    let raw = base64_bytes(&zip_of(&[("a.xml", b"<x/>")]));
    assert_eq!(decode(ReportFileType::Zip, &raw), Ok("<x/>".to_string()));
}

#[test]
fn zip_with_two_entries_is_ambiguous() {
    let raw = base64_bytes(&zip_of(&[("a.xml", b"<a/>"), ("b.xml", b"<b/>")]));
    assert_eq!(decode(ReportFileType::Zip, &raw), Err(ReportDecodeError::AmbiguousArchive));
}

#[test]
fn empty_zip_is_ambiguous() {
    let raw = base64_bytes(&zip_of(&[]));
    assert_eq!(decode(ReportFileType::Zip, &raw), Err(ReportDecodeError::AmbiguousArchive));
}

#[test]
fn wrapped_gzip_decodes() {
    let raw = wrap_every(&base64_bytes(&gzip_of(b"hi")), 76);
    assert_eq!(decode(ReportFileType::Gzip, &raw), Ok("hi".to_string()));
    let raw = wrap_every(&base64_bytes(&gzip_of(b"hi")), 10);
    assert!(raw.contains(&b'\n'));
    assert_eq!(decode(ReportFileType::Gzip, &raw), Ok("hi".to_string()));
}

#[test]
fn invalid_base64_is_reported() {
    assert_eq!(decode(ReportFileType::Gzip, &b"@@not base64@@".to_vec()), Err(ReportDecodeError::InvalidBase64));
}

#[test]
fn corrupt_archives_are_reported() {
    assert_eq!(read_report(ReportFileType::Zip, b"not a zip".to_vec()), Err(ReportDecodeError::InvalidArchive));
    assert_eq!(read_report(ReportFileType::Gzip, b"not a gzip".to_vec()), Err(ReportDecodeError::InvalidGzip));
}

#[test]
fn zip_entry_bytes_map_to_characters() {
    let raw = base64_bytes(&zip_of(&[("a.xml", &[0x3c, 0xe9, 0x3e])]));
    assert_eq!(decode(ReportFileType::Zip, &raw), Ok("<\u{e9}>".to_string()));
    assert_eq!(latin1_text(&vec![0x41, 0xff]), "A\u{ff}");
}

/// A one-entry archive whose entry is not flagged as encrypted but carries an
/// AES extra field naming Deflate as its method.
fn aes_marked_zip() -> Vec<u8> {
    let name = b"a.xml";
    let data = b"<x/>";
    let mut z: Vec<u8> = Vec::new();
    z.extend_from_slice(&0x04034b50u32.to_le_bytes());
    for v in [20u16, 0, 99, 0, 0] {
        z.extend_from_slice(&v.to_le_bytes());
    }
    for v in [0u32, data.len() as u32, data.len() as u32] {
        z.extend_from_slice(&v.to_le_bytes());
    }
    z.extend_from_slice(&(name.len() as u16).to_le_bytes());
    z.extend_from_slice(&0u16.to_le_bytes());
    z.extend_from_slice(name);
    z.extend_from_slice(data);
    let cd_start = z.len();
    z.extend_from_slice(&0x02014b50u32.to_le_bytes());
    for v in [20u16, 20, 0, 99, 0, 0] {
        z.extend_from_slice(&v.to_le_bytes());
    }
    for v in [0u32, data.len() as u32, data.len() as u32] {
        z.extend_from_slice(&v.to_le_bytes());
    }
    for v in [name.len() as u16, 11, 0, 0, 0] {
        z.extend_from_slice(&v.to_le_bytes());
    }
    z.extend_from_slice(&0u32.to_le_bytes());
    z.extend_from_slice(&0u32.to_le_bytes());
    z.extend_from_slice(name);
    for v in [0x9901u16, 7, 2, 0x4541] {
        z.extend_from_slice(&v.to_le_bytes());
    }
    z.push(3);
    z.extend_from_slice(&8u16.to_le_bytes());
    let cd_size = z.len() - cd_start;
    z.extend_from_slice(&0x06054b50u32.to_le_bytes());
    for v in [0u16, 0, 1, 1] {
        z.extend_from_slice(&v.to_le_bytes());
    }
    z.extend_from_slice(&(cd_size as u32).to_le_bytes());
    z.extend_from_slice(&(cd_start as u32).to_le_bytes());
    z.extend_from_slice(&0u16.to_le_bytes());
    z
}

#[test]
fn entry_needing_a_password_is_refused() {
    let archive = aes_marked_zip();
    assert_eq!(zip::ZipArchive::new(std::io::Cursor::new(archive.clone())).unwrap().len(), 1);
    assert_eq!(read_report(ReportFileType::Zip, archive.clone()), Err(ReportDecodeError::InvalidArchive));
    assert_eq!(decode(ReportFileType::Zip, &base64_bytes(&archive)), Err(ReportDecodeError::InvalidArchive));
}

#[test]
fn line_breaks_are_stripped() {
    assert_eq!(strip_line_breaks(&b"ab\r\ncd\ne f\r".to_vec()), b"abcde f".to_vec());
}

#[test]
fn subject_report_id_is_captured() {
    let id = report_id_from_subject("Report Domain: example.com Report-ID: <xyz> tail");
    assert_eq!(id, Some("<xyz> tail".to_string()));
    assert_eq!(report_id_from_subject("Report-ID: 42\nnext"), Some("42".to_string()));
    assert_eq!(report_id_from_subject("Weekly digest"), None);
}

#[test]
fn plan_skips_in_order() {
    let body = multipart(vec![BodyStructure::Text, leaf("application", "zip")]);
    let mut processed = ProcessedReports::new();
    assert!(matches!(
        plan_message(&processed, None, "<m1>", &body),
        MessagePlan::Skip(Outcome::SkippedNoSubjectId)
    ));
    assert!(matches!(
        plan_message(&processed, Some("r".to_string()), "<m1>", &BodyStructure::Text),
        MessagePlan::Skip(Outcome::SkippedNoAttachment)
    ));
    match plan_message(&processed, Some("r".to_string()), "<m1>", &body) {
        MessagePlan::Fetch { report_id, address, kind } => {
            assert_eq!(report_id, "r");
            assert_eq!(address, vec![2]);
            assert_eq!(kind, ReportFileType::Zip);
        }
        MessagePlan::Skip(_) => panic!("expected a fetch"),
    }
    processed.insert("<m1>".to_string());
    assert!(processed.contains("<m1>"));
    assert!(!processed.contains("<m2>"));
    assert!(matches!(
        plan_message(&processed, Some("r".to_string()), "<m1>", &body),
        MessagePlan::Skip(Outcome::SkippedDuplicate)
    ));
}

fn report_from(org: &str, email: &str, extra: &str) -> Report {
    let mut r = Report::default();
    r.report_metadata.org_name = org.to_string();
    r.report_metadata.email = email.to_string();
    r.report_metadata.extra_contact_info = extra.to_string();
    r
}

#[test]
fn same_identity_resolves_to_same_organization() {
    let mut orgs = OrganizationMap::new();
    let first = report_from("orgA", "a@b", "");
    let second = report_from("orgA", "a@b", "");
    let other = report_from("orgA", "a@b", "x");
    assert_eq!(orgs.organization_id(&first), None);
    orgs.add_organization(&first, 7);
    assert_eq!(orgs.organization_id(&second), Some(7));
    assert_eq!(orgs.organization_id(&other), None);
    orgs.add_organization(&other, 8);
    assert_eq!(orgs.organization_id(&first), Some(7));
    assert_eq!(orgs.lookup("orgA", "a@b", "x"), Some(8));
    assert_eq!(orgs.entries.len(), 2);
}

#[test]
fn message_to_report_row() {
    let xml = "<feedback><report_metadata><report_id>xyz</report_id></report_metadata></feedback>";
    let body = multipart(vec![BodyStructure::Text, leaf("application", "zip")]);
    let processed = ProcessedReports::new();
    let subject_id = report_id_from_subject("Report domain: d Report-ID: <xyz>");
    let (address, kind) = match plan_message(&processed, subject_id, "<m>", &body) {
        MessagePlan::Fetch { address, kind, .. } => (address, kind),
        MessagePlan::Skip(_) => panic!("expected a fetch"),
    };
    assert_eq!(part_address_text(&address), "2");
    let raw = wrap_every(&base64_bytes(&zip_of(&[("r.xml", xml.as_bytes())])), 76);
    assert_eq!(decode(kind, &raw), Ok(xml.to_string()));
    let mut report = report_from("orgA", "a@b", "");
    report.report_metadata.report_id = "xyz".to_string();
    report.report_metadata.date_range.begin = 100;
    report.report_metadata.date_range.end = 200;
    let row = report_row(&report, 3, "<m>", 5, 6);
    assert_eq!(row.report_id, "xyz");
    assert_eq!((row.organization_id, row.begin, row.end), (3, 100, 200));
    assert_eq!((row.message_id.as_str(), row.received_at, row.processed_at), ("<m>", 5, 6));
}

#[test]
fn default_configuration() {
    let c = default_config();
    assert_eq!(c.database.host, "localhost");
    assert_eq!(c.database.database, "herald");
    assert_eq!(c.dmarc.port, 993);
    assert_eq!(c.tlsrpt.username, "reports@tlsrpt.some-cool-address.invalid");
    assert_eq!(c.dmarc.folder, "INBOX");
}

#[test]
fn coordinator_decisions_after_fetch() {
    assert_eq!(Ingest::after_decode(Ok("<x/>".to_string())), Ok("<x/>".to_string()));
    assert_eq!(
        Ingest::after_decode(Err(ReportDecodeError::InvalidBase64)),
        Err(Outcome::SkippedDecodeFailure)
    );
    assert_eq!(Ingest::after_parse(None), Err(Outcome::SkippedParseFailure));
    let parsed = report_from("orgA", "a@b", "");
    assert_eq!(Ingest::after_parse(Some(parsed.clone())), Ok(parsed));
}

#[test]
fn coordinator_persists_once() {
    let body = multipart(vec![BodyStructure::Text, leaf("application", "zip")]);
    let mut ingest = Ingest::new(ProcessedReports::new(), OrganizationMap::new());
    let subject = "Report Domain: d Report-ID: <xyz>";
    assert!(matches!(ingest.plan("no id here", "<m>", &body), MessagePlan::Skip(Outcome::SkippedNoSubjectId)));
    match ingest.plan(subject, "<m>", &body) {
        MessagePlan::Fetch { report_id, address, kind } => {
            assert_eq!(report_id, "<xyz>");
            assert_eq!(address, vec![2]);
            assert_eq!(kind, ReportFileType::Zip);
        }
        MessagePlan::Skip(_) => panic!("expected a fetch"),
    }
    let first = report_from("orgA", "a@b", "");
    assert_eq!(ingest.organization_for(&first), None);
    assert_eq!(ingest.organization_stored(&first, 11), 11);
    assert_eq!(ingest.organization_for(&report_from("orgA", "a@b", "")), Some(11));
    assert_eq!(ingest.committed("<m>".to_string()), Outcome::Persisted);
    assert!(matches!(ingest.plan(subject, "<m>", &body), MessagePlan::Skip(Outcome::SkippedDuplicate)));
    assert_eq!(ingest.processed.ids.len(), 1);
}
