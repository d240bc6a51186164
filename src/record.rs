//! The case record ("information") and the facts about it that the store and
//! the export speak of.
use vstd::prelude::*;

verus! {

/// One tracked case: intake, investigation and prosecution fields, plus the
/// bookkeeping timestamps that the store assigns. Timestamps are milliseconds
/// since the Unix epoch, UTC.
#[derive(Clone, Debug, PartialEq)]
pub struct Information {
    pub id: i64,
    pub acceptance_no: String,
    pub accepted_at: i64,
    pub plaintiff: String,
    pub defendant: String,
    pub description: Option<String>,
    pub law: Option<String>,
    // investigation
    pub inv_investigator: Option<String>,
    pub inv_designation_no: Option<String>,
    pub inv_designated_at: Option<i64>,
    pub inv_status: Option<i64>,
    pub inv_handling_no: Option<String>,
    pub inv_handled_at: Option<i64>,
    pub inv_transferred_at: Option<i64>,
    pub inv_extended_at: Option<i64>,
    pub inv_recovered_at: Option<i64>,
    pub inv_canceled_at: Option<i64>,
    // prosecution
    pub pro_procurator: Option<String>,
    pub pro_designation_no: Option<String>,
    pub pro_designated_at: Option<i64>,
    pub pro_additional_evidence_requirement: Option<String>,
    pub pro_non_prosecution_decision: Option<String>,
    pub pro_cessation_decision: Option<String>,
    // bookkeeping
    pub created_at: Option<i64>,
    pub deleted_at: Option<i64>,
    pub updated_at: Option<i64>,
}

/// Neither investigation nor prosecution has been assigned.
pub open spec fn is_unassigned(r: Information) -> bool {
    &&& r.inv_investigator is None
    &&& r.inv_designation_no is None
    &&& r.pro_procurator is None
    &&& r.pro_designation_no is None
}

/// `a` and `b` agree on every field that a caller supplies: all but `id` and
/// the bookkeeping timestamps.
pub open spec fn same_content(a: Information, b: Information) -> bool {
    &&& a.acceptance_no == b.acceptance_no
    &&& a.accepted_at == b.accepted_at
    &&& a.plaintiff == b.plaintiff
    &&& a.defendant == b.defendant
    &&& a.description == b.description
    &&& a.law == b.law
    &&& a.inv_investigator == b.inv_investigator
    &&& a.inv_designation_no == b.inv_designation_no
    &&& a.inv_designated_at == b.inv_designated_at
    &&& a.inv_status == b.inv_status
    &&& a.inv_handling_no == b.inv_handling_no
    &&& a.inv_handled_at == b.inv_handled_at
    &&& a.inv_transferred_at == b.inv_transferred_at
    &&& a.inv_extended_at == b.inv_extended_at
    &&& a.inv_recovered_at == b.inv_recovered_at
    &&& a.inv_canceled_at == b.inv_canceled_at
    &&& a.pro_procurator == b.pro_procurator
    &&& a.pro_designation_no == b.pro_designation_no
    &&& a.pro_designated_at == b.pro_designated_at
    &&& a.pro_additional_evidence_requirement == b.pro_additional_evidence_requirement
    &&& a.pro_non_prosecution_decision == b.pro_non_prosecution_decision
    &&& a.pro_cessation_decision == b.pro_cessation_decision
}

/// The record that the store keeps when `info` is created with `id` at `now`:
/// the caller's fields, the assigned id and creation time, and nothing else.
pub open spec fn stamped(info: Information, id: i64, now: i64) -> Information {
    Information {
        id: id,
        created_at: Some(now),
        updated_at: None,
        deleted_at: None,
        ..info
    }
}

/// The record that replaces `current` when it is updated with `info` at
/// `now`: every caller-supplied field from `info`; id, creation time and
/// deletion mark kept; update time set.
pub open spec fn revised(current: Information, info: Information, now: i64) -> Information {
    Information {
        id: current.id,
        created_at: current.created_at,
        deleted_at: current.deleted_at,
        updated_at: Some(now),
        ..info
    }
}

/// The creation time the store orders by (zero where none is recorded).
pub open spec fn created_key(r: Information) -> i64 {
    match r.created_at {
        Some(t) => t,
        None => 0,
    }
}

fn copy_text(t: &Option<String>) -> (r: Option<String>)
    ensures
        r == *t,
{
    match t {
        Some(s) => Some(s.clone()),
        None => None,
    }
}

impl Information {
    /// A field-for-field copy.
    pub fn duplicate(&self) -> (r: Information)
        ensures
            r == *self,
    {
        Information {
            id: self.id,
            acceptance_no: self.acceptance_no.clone(),
            accepted_at: self.accepted_at,
            plaintiff: self.plaintiff.clone(),
            defendant: self.defendant.clone(),
            description: copy_text(&self.description),
            law: copy_text(&self.law),
            inv_investigator: copy_text(&self.inv_investigator),
            inv_designation_no: copy_text(&self.inv_designation_no),
            inv_designated_at: self.inv_designated_at,
            inv_status: self.inv_status,
            inv_handling_no: copy_text(&self.inv_handling_no),
            inv_handled_at: self.inv_handled_at,
            inv_transferred_at: self.inv_transferred_at,
            inv_extended_at: self.inv_extended_at,
            inv_recovered_at: self.inv_recovered_at,
            inv_canceled_at: self.inv_canceled_at,
            pro_procurator: copy_text(&self.pro_procurator),
            pro_designation_no: copy_text(&self.pro_designation_no),
            pro_designated_at: self.pro_designated_at,
            pro_additional_evidence_requirement: copy_text(&self.pro_additional_evidence_requirement),
            pro_non_prosecution_decision: copy_text(&self.pro_non_prosecution_decision),
            pro_cessation_decision: copy_text(&self.pro_cessation_decision),
            created_at: self.created_at,
            deleted_at: self.deleted_at,
            updated_at: self.updated_at,
        }
    }

    /// Whether neither phase has been assigned.
    pub fn is_unassigned(&self) -> (r: bool)
        ensures
            r == is_unassigned(*self),
    {
        self.inv_investigator.is_none() && self.inv_designation_no.is_none()
            && self.pro_procurator.is_none() && self.pro_designation_no.is_none()
    }
}

} // verus!
