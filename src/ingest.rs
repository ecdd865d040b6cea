//! Per-message decisions of an ingestion run and the state they share:
//! the processed-message index and the organization identifiers.
use vstd::prelude::*;
use crate::locate::{address_of, locate, locate_spec, BodyStructure};
use crate::text::same_text;
use crate::decode::ReportDecodeError;
use crate::types::{Report, ReportFileType};

verus! {

/// Group 1 of the leftmost match of a regular expression in a text; `None`
/// when the pattern is invalid, nothing matches or the group did not take part.
pub uninterp spec fn first_capture(pattern: Seq<char>, text: Seq<char>) -> Option<Seq<char>>;

/// Whether the marker `Report-ID: ` starts at index `i` of `t`.
pub open spec fn marker_at(t: Seq<char>, i: int) -> bool {
    0 <= i && i + 11 <= t.len() && t.subrange(i, i + 11) == "Report-ID: "@
}

/// Whether `j` is where a line from index `from` of `t` ends: the first line
/// feed at or after `from`, or the end of `t`.
pub open spec fn line_end_at(t: Seq<char>, from: int, j: int) -> bool {
    from <= j <= t.len() && (j == t.len() || t[j] == '\n')
        && forall|m: int| from <= m < j ==> t[m] != '\n'
}

/// What `Report-ID: (.*)` captures in `t`: the rest of the line after the
/// first `Report-ID: `, since `.` matches anything but a line feed.
pub open spec fn report_id_capture(t: Seq<char>) -> Option<Seq<char>> {
    if exists|i: int| marker_at(t, i) {
        let i = choose|i: int| #[trigger] marker_at(t, i) && forall|k: int| 0 <= k < i ==> !marker_at(t, k);
        let j = choose|j: int| #[trigger] line_end_at(t, i + 11, j);
        Some(t.subrange(i + 11, j))
    } else {
        None
    }
}

/// Relies on `regex::Regex::new` and `Regex::captures`: group 1 of the leftmost
/// match. For the pattern `Report-ID: (.*)` the regex documentation fixes the
/// result: the leftmost match starts at the first `Report-ID: `, and the
/// greedy `.*` takes the rest of that line (`.` matches anything but `\n`).
#[verifier::external_body]
fn capture_first_group(pattern: &str, text: &str) -> (r: Option<String>)
    ensures
        match r {
            Some(c) => first_capture(pattern@, text@) == Some(c@),
            None => first_capture(pattern@, text@) is None,
        },
        pattern@ == report_id_pattern() ==> match r {
            Some(c) => report_id_capture(text@) == Some(c@),
            None => report_id_capture(text@) is None,
        },
{
    let re = regex::Regex::new(pattern).ok()?;
    re.captures(text)?.get(1).map(|m| m.as_str().to_string())
}

/// The pattern that carries a report identifier in a subject line.
pub open spec fn report_id_pattern() -> Seq<char> {
    "Report-ID: (.*)"@
}

/// The report identifier named in a message subject.
pub fn report_id_from_subject(subject: &str) -> (r: Option<String>)
    ensures
        match r {
            Some(c) => first_capture(report_id_pattern(), subject@) == Some(c@)
                && report_id_capture(subject@) == Some(c@),
            None => first_capture(report_id_pattern(), subject@) is None
                && report_id_capture(subject@) is None,
        },
{
    capture_first_group("Report-ID: (.*)", subject)
}

/// What became of one mailbox message.
#[derive(Clone, Copy, Debug, PartialEq, Eq, Structural)]
pub enum Outcome {
    Persisted,
    SkippedDuplicate,
    SkippedNoSubjectId,
    SkippedNoAttachment,
    SkippedDecodeFailure,
    SkippedParseFailure,
}

/// The next step for a message: skip it, or fetch its report attachment.
pub enum MessagePlan {
    Skip(Outcome),
    Fetch { report_id: String, address: Vec<usize>, kind: ReportFileType },
}

/// The message identifiers whose reports are already stored.
pub struct ProcessedReports {
    pub ids: Vec<String>,
}

impl ProcessedReports {
    pub open spec fn view(&self) -> Set<Seq<char>> {
        Set::new(|id: Seq<char>| exists|i: int| 0 <= i < self.ids@.len() && self.ids@[i]@ == id)
    }

    /// An empty index.
    pub fn new() -> (r: ProcessedReports)
        ensures
            r@ == Set::<Seq<char>>::empty(),
    {
        let r = ProcessedReports { ids: Vec::new() };
        assert(r@ =~= Set::<Seq<char>>::empty());
        r
    }

    /// Whether `message_id` is in the index.
    pub fn contains(&self, message_id: &str) -> (r: bool)
        ensures
            r == self@.contains(message_id@),
    {
        let mut i: usize = 0;
        while i < self.ids.len()
            invariant
                i <= self.ids@.len(),
                forall|j: int| 0 <= j < i ==> self.ids@[j]@ != message_id@,
            decreases self.ids@.len() - i,
        {
            if same_text(self.ids[i].as_str(), message_id) {
                return true;
            }
            i += 1;
        }
        false
    }

    /// Adds `message_id` to the index.
    pub fn insert(&mut self, message_id: String)
        ensures
            final(self)@ == old(self)@.insert(message_id@),
    {
        let ghost id = message_id@;
        let ghost before = self.ids@;
        self.ids.push(message_id);
        proof {
            let n = before.len() as int;
            assert(self.ids@[n]@ == id);
            assert forall|x: Seq<char>| final(self)@.contains(x) implies old(self)@.insert(id).contains(x) by {
                let i = choose|i: int| 0 <= i < self.ids@.len() && self.ids@[i]@ == x;
                if i < n {
                    assert(before[i]@ == x);
                }
            }
            assert forall|x: Seq<char>| old(self)@.insert(id).contains(x) implies final(self)@.contains(x) by {
                if x == id {
                    assert(self.ids@[n]@ == x);
                } else {
                    let i = choose|i: int| 0 <= i < before.len() && before[i]@ == x;
                    assert(self.ids@[i]@ == x);
                }
            }
            assert(final(self)@ =~= old(self)@.insert(id));
        }
    }
}

/// The identity of a reporting organization.
pub type OrgKey = (Seq<char>, Seq<char>, Seq<char>);

/// One known organization with its stored identifier.
pub struct Organization {
    pub name: String,
    pub email: String,
    pub extra_contact_info: String,
    pub id: u64,
}

impl Organization {
    pub open spec fn key(&self) -> OrgKey {
        (self.name@, self.email@, self.extra_contact_info@)
    }
}

/// The known organizations; each identity appears at most once.
pub struct OrganizationMap {
    pub entries: Vec<Organization>,
}

impl OrganizationMap {
    pub open spec fn has_key_at(&self, k: OrgKey, i: int) -> bool {
        0 <= i < self.entries@.len() && self.entries@[i].key() == k
    }

    pub open spec fn wf(&self) -> bool {
        forall|i: int, j: int|
            0 <= i < self.entries@.len() && 0 <= j < self.entries@.len() && i != j
                ==> self.entries@[i].key() != self.entries@[j].key()
    }

    pub open spec fn view(&self) -> Map<OrgKey, u64> {
        Map::new(
            |k: OrgKey| exists|i: int| self.has_key_at(k, i),
            |k: OrgKey| self.entries@[choose|i: int| self.has_key_at(k, i)].id,
        )
    }

    /// A map with no organization.
    pub fn new() -> (r: OrganizationMap)
        ensures
            r.wf(),
            r@ == Map::<OrgKey, u64>::empty(),
    {
        let r = OrganizationMap { entries: Vec::new() };
        assert(r@ =~= Map::<OrgKey, u64>::empty());
        r
    }

    /// The identifier of the organization with the given identity.
    pub fn lookup(&self, name: &str, email: &str, extra_contact_info: &str) -> (r: Option<u64>)
        requires
            self.wf(),
        ensures
            r == (if self@.contains_key((name@, email@, extra_contact_info@)) {
                Some(self@[(name@, email@, extra_contact_info@)])
            } else {
                None::<u64>
            }),
    {
        let ghost k = (name@, email@, extra_contact_info@);
        let mut i: usize = 0;
        while i < self.entries.len()
            invariant
                self.wf(),
                k == (name@, email@, extra_contact_info@),
                i <= self.entries@.len(),
                forall|j: int| 0 <= j < i ==> self.entries@[j].key() != k,
            decreases self.entries@.len() - i,
        {
            let e = &self.entries[i];
            let a = same_text(e.name.as_str(), name);
            let b = same_text(e.email.as_str(), email);
            let c = same_text(e.extra_contact_info.as_str(), extra_contact_info);
            assert(*e == self.entries@[i as int]);
            assert((a && b && c) == (e.key() == k));
            if a && b && c {
                proof {
                    assert(self.has_key_at(k, i as int));
                    let c = choose|c: int| self.has_key_at(k, c);
                    assert(c == i);
                }
                return Some(e.id);
            }
            i += 1;
        }
        proof {
            assert(!self@.contains_key(k)) by {
                if exists|c: int| self.has_key_at(k, c) {
                    let c = choose|c: int| self.has_key_at(k, c);
                    assert(self.entries@[c].key() == k);
                }
            }
        }
        None
    }

    /// Records the identifier assigned to a new organization.
    pub fn add(&mut self, name: String, email: String, extra_contact_info: String, id: u64)
        requires
            old(self).wf(),
            !old(self)@.contains_key((name@, email@, extra_contact_info@)),
        ensures
            final(self).wf(),
            final(self)@ == old(self)@.insert((name@, email@, extra_contact_info@), id),
    {
        let ghost k = (name@, email@, extra_contact_info@);
        let ghost before = self.entries@;
        self.entries.push(Organization { name, email, extra_contact_info, id });
        proof {
            let n = before.len() as int;
            assert(self.entries@[n].key() == k);
            assert forall|i: int| 0 <= i < n implies before[i].key() != k by {
                if before[i].key() == k {
                    assert(old(self).has_key_at(k, i));
                }
            }
            assert forall|kk: OrgKey| #[trigger] final(self)@.contains_key(kk)
                implies old(self)@.insert(k, id).contains_key(kk)
                    && final(self)@[kk] == old(self)@.insert(k, id)[kk] by {
                let c = choose|c: int| self.has_key_at(kk, c);
                if kk == k {
                    assert(self.has_key_at(k, n));
                    assert(c == n);
                } else {
                    assert(c < n);
                    assert(old(self).has_key_at(kk, c));
                    let d = choose|d: int| old(self).has_key_at(kk, d);
                    assert(d == c);
                }
            }
            assert forall|kk: OrgKey| #[trigger] old(self)@.insert(k, id).contains_key(kk)
                implies final(self)@.contains_key(kk) by {
                if kk == k {
                    assert(self.has_key_at(k, n));
                } else {
                    let d = choose|d: int| old(self).has_key_at(kk, d);
                    assert(self.has_key_at(kk, d));
                }
            }
            assert(final(self)@ =~= old(self)@.insert(k, id));
        }
    }
}

/// The identity of the organization that issued a report.
pub open spec fn report_org_key(report: Report) -> OrgKey {
    (
        report.report_metadata.org_name@,
        report.report_metadata.email@,
        report.report_metadata.extra_contact_info@,
    )
}

/// What a message comes to before its attachment is fetched: a skip, or
/// `None` when the attachment must be fetched.
pub open spec fn plan_outcome(
    processed: Set<Seq<char>>,
    has_report_id: bool,
    message_id: Seq<char>,
    body: BodyStructure,
) -> Option<Outcome> {
    if !has_report_id {
        Some(Outcome::SkippedNoSubjectId)
    } else if processed.contains(message_id) {
        Some(Outcome::SkippedDuplicate)
    } else if locate_spec(body) is None {
        Some(Outcome::SkippedNoAttachment)
    } else {
        None
    }
}

/// Decides what to do with a message, given the report identifier found in
/// its subject: skip it, or fetch the located attachment. The processed
/// index is consulted before anything is fetched.
pub fn plan_message(
    processed: &ProcessedReports,
    report_id: Option<String>,
    message_id: &str,
    body: &BodyStructure,
) -> (r: MessagePlan)
    ensures
        match plan_outcome(processed@, report_id is Some, message_id@, *body) {
            Some(o) => r == MessagePlan::Skip(o),
            None => match r {
                MessagePlan::Fetch { report_id: rid, address, kind } => report_id == Some(rid)
                    && exists|rel: Seq<usize>|
                        locate_spec(*body) == Some((rel, kind)) && address@ == address_of(rel),
                MessagePlan::Skip(_) => false,
            },
        },
{
    let rid = match report_id {
        Some(x) => x,
        None => {
            return MessagePlan::Skip(Outcome::SkippedNoSubjectId);
        },
    };
    if processed.contains(message_id) {
        return MessagePlan::Skip(Outcome::SkippedDuplicate);
    }
    match locate(body) {
        Some((address, kind)) => MessagePlan::Fetch { report_id: rid, address, kind },
        None => MessagePlan::Skip(Outcome::SkippedNoAttachment),
    }
}

/// After a message has been stored, seeing it again (with a report
/// identifier in its subject) is skipped as a duplicate before any fetch.
pub proof fn lemma_stored_message_is_duplicate(
    processed: Set<Seq<char>>,
    message_id: Seq<char>,
    body: BodyStructure,
)
    ensures
        plan_outcome(processed.insert(message_id), true, message_id, body) == Some(
            Outcome::SkippedDuplicate,
        ),
{
}

/// Two reports with the same organization identity get the same identifier:
/// once the first one's organization is added with `id`, the second one's
/// identity is present and maps to `id`, so it is looked up, not added again.
pub proof fn lemma_same_identity_same_organization(
    before: OrganizationMap,
    after: OrganizationMap,
    first: Report,
    second: Report,
    id: u64,
)
    requires
        after@ == before@.insert(report_org_key(first), id),
        report_org_key(second) == report_org_key(first),
    ensures
        after@.contains_key(report_org_key(second)),
        after@[report_org_key(second)] == id,
{
}

impl OrganizationMap {
    /// The stored identifier of the organization that issued `report`.
    pub fn organization_id(&self, report: &Report) -> (r: Option<u64>)
        requires
            self.wf(),
        ensures
            r == (if self@.contains_key(report_org_key(*report)) {
                Some(self@[report_org_key(*report)])
            } else {
                None::<u64>
            }),
    {
        let md = &report.report_metadata;
        self.lookup(md.org_name.as_str(), md.email.as_str(), md.extra_contact_info.as_str())
    }

    /// Records the identifier stored for the new organization of `report`.
    pub fn add_organization(&mut self, report: &Report, id: u64)
        requires
            old(self).wf(),
            !old(self)@.contains_key(report_org_key(*report)),
        ensures
            final(self).wf(),
            final(self)@ == old(self)@.insert(report_org_key(*report), id),
    {
        let md = &report.report_metadata;
        self.add(md.org_name.clone(), md.email.clone(), md.extra_contact_info.clone(), id);
    }
}

/// The values of a stored report row; the published policy is stored beside
/// them in its serialized form.
pub struct ReportRow {
    pub organization_id: u64,
    pub report_id: String,
    pub begin: u64,
    pub end: u64,
    pub message_id: String,
    pub received_at: i64,
    pub processed_at: i64,
}

/// The report row of `report`, received as message `message_id`.
pub fn report_row(
    report: &Report,
    organization_id: u64,
    message_id: &str,
    received_at: i64,
    processed_at: i64,
) -> (r: ReportRow)
    ensures
        r.organization_id == organization_id,
        r.report_id@ == report.report_metadata.report_id@,
        r.begin == report.report_metadata.date_range.begin,
        r.end == report.report_metadata.date_range.end,
        r.message_id@ == message_id@,
        r.received_at == received_at,
        r.processed_at == processed_at,
{
    ReportRow {
        organization_id,
        report_id: report.report_metadata.report_id.clone(),
        begin: report.report_metadata.date_range.begin,
        end: report.report_metadata.date_range.end,
        message_id: message_id.to_owned(),
        received_at,
        processed_at,
    }
}

/// The state an ingestion run carries from message to message, and the
/// decisions taken on a message after its attachment was fetched.
pub struct Ingest {
    pub processed: ProcessedReports,
    pub organizations: OrganizationMap,
}

impl Ingest {
    pub open spec fn wf(&self) -> bool {
        self.organizations.wf()
    }

    /// State built from the stored message identifiers and organizations.
    pub fn new(processed: ProcessedReports, organizations: OrganizationMap) -> (r: Ingest)
        requires
            organizations.wf(),
        ensures
            r.wf(),
            r.processed@ == processed@,
            r.organizations@ == organizations@,
    {
        Ingest { processed, organizations }
    }

    /// The first steps for a message: its subject's report identifier, the
    /// duplicate check, and the search for its attachment, in that order.
    pub fn plan(&self, subject: &str, message_id: &str, body: &BodyStructure) -> (r: MessagePlan)
        ensures
            match plan_outcome(
                self.processed@,
                first_capture(report_id_pattern(), subject@) is Some,
                message_id@,
                *body,
            ) {
                Some(o) => r == MessagePlan::Skip(o),
                None => match r {
                    MessagePlan::Fetch { report_id: rid, address, kind } =>
                        first_capture(report_id_pattern(), subject@) == Some(rid@)
                        && exists|rel: Seq<usize>|
                            locate_spec(*body) == Some((rel, kind)) && address@ == address_of(rel),
                    MessagePlan::Skip(_) => false,
                },
            },
    {
        let report_id = report_id_from_subject(subject);
        plan_message(&self.processed, report_id, message_id, body)
    }

    /// The report text, or the skip that a failed decode comes to.
    pub fn after_decode(decoded: Result<String, ReportDecodeError>) -> (r: Result<String, Outcome>)
        ensures
            match decoded {
                Ok(s) => r == Ok::<String, Outcome>(s),
                Err(_) => r == Err::<String, Outcome>(Outcome::SkippedDecodeFailure),
            },
    {
        match decoded {
            Ok(s) => Ok(s),
            Err(_) => Err(Outcome::SkippedDecodeFailure),
        }
    }

    /// The report, or the skip that a failed parse comes to.
    pub fn after_parse(parsed: Option<Report>) -> (r: Result<Report, Outcome>)
        ensures
            match parsed {
                Some(p) => r == Ok::<Report, Outcome>(p),
                None => r == Err::<Report, Outcome>(Outcome::SkippedParseFailure),
            },
    {
        match parsed {
            Some(p) => Ok(p),
            None => Err(Outcome::SkippedParseFailure),
        }
    }

    /// The stored identifier of the report's organization; `None` when a new
    /// organization row must be inserted first.
    pub fn organization_for(&self, report: &Report) -> (r: Option<u64>)
        requires
            self.wf(),
        ensures
            r == (if self.organizations@.contains_key(report_org_key(*report)) {
                Some(self.organizations@[report_org_key(*report)])
            } else {
                None::<u64>
            }),
    {
        self.organizations.organization_id(report)
    }

    /// Records the identifier of the newly inserted organization row of
    /// `report`, and returns it.
    pub fn organization_stored(&mut self, report: &Report, id: u64) -> (r: u64)
        requires
            old(self).wf(),
            !old(self).organizations@.contains_key(report_org_key(*report)),
        ensures
            final(self).wf(),
            r == id,
            final(self).organizations@ == old(self).organizations@.insert(report_org_key(*report), id),
            final(self).processed@ == old(self).processed@,
    {
        self.organizations.add_organization(report, id);
        id
    }

    /// After the report's transaction committed: the message joins the
    /// index, and the outcome is `Persisted`.
    pub fn committed(&mut self, message_id: String) -> (r: Outcome)
        requires
            old(self).wf(),
        ensures
            final(self).wf(),
            r == Outcome::Persisted,
            final(self).processed@ == old(self).processed@.insert(message_id@),
            final(self).organizations@ == old(self).organizations@,
    {
        self.processed.insert(message_id);
        Outcome::Persisted
    }
}

} // verus!
