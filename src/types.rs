use vstd::prelude::*;

verus! {

/// How a report attachment is compressed.
#[derive(Clone, Copy, Debug, PartialEq, Eq, Structural)]
pub enum ReportFileType {
    Gzip,
    Zip,
}

/// The reporting period, in unix seconds.
#[derive(Clone, Debug, Default, PartialEq, Eq)]
pub struct ReportDateRange {
    pub begin: u64,
    pub end: u64,
}

#[derive(Clone, Debug, Default, PartialEq, Eq)]
pub struct ReportMetadata {
    pub org_name: String,
    pub email: String,
    pub extra_contact_info: String,
    pub report_id: String,
    pub date_range: ReportDateRange,
    pub error: String,
}

/// The policy that the reported domain published.
#[derive(Clone, Debug, Default, PartialEq, Eq)]
pub struct Policy {
    pub domain: String,
    pub adkim: String,
    pub aspf: String,
    pub p: String,
    pub sp: String,
    pub pct: u8,
}

/// The policy that the receiver evaluated for one source.
#[derive(Clone, Debug, Default, PartialEq, Eq)]
pub struct RecordRowPolicy {
    pub disposition: String,
    pub dkim: String,
    pub spf: String,
}

#[derive(Clone, Debug, Default, PartialEq, Eq)]
pub struct RecordRow {
    pub source_ip: String,
    pub count: u32,
    pub policy_evaluated: RecordRowPolicy,
}

#[derive(Clone, Debug, Default, PartialEq, Eq)]
pub struct RecordIdentifiers {
    pub header_from: String,
}

#[derive(Clone, Debug, Default, PartialEq, Eq)]
pub struct RecordDKIMResult {
    pub domain: String,
    pub result: String,
    pub selector: String,
}

#[derive(Clone, Debug, Default, PartialEq, Eq)]
pub struct RecordSPFResult {
    pub domain: String,
    pub scope: String,
    pub result: String,
}

/// Authentication results of one record, in the order the report lists them.
#[derive(Clone, Debug, Default, PartialEq, Eq)]
pub struct RecordResults {
    pub dkim: Vec<RecordDKIMResult>,
    pub spf: Vec<RecordSPFResult>,
}

#[derive(Clone, Debug, Default, PartialEq, Eq)]
pub struct Record {
    pub row: RecordRow,
    pub identifiers: RecordIdentifiers,
    pub auth_results: RecordResults,
}

/// A parsed aggregate report.
#[derive(Clone, Debug, Default, PartialEq, Eq)]
pub struct Report {
    pub report_metadata: ReportMetadata,
    pub policy_published: Policy,
    pub record: Vec<Record>,
}

} // verus!
