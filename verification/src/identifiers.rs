//! Identifiers shared by the project, quality and reporting records.

use crate::error::DomainError;
use crate::text::{all_identifier_characters, all_identifier_chars, trim, trim_seq};
use vstd::prelude::*;

verus! {

/// Identity of a laboratory project (campaign), such as `CEM-2026-001`.
#[derive(Clone, Debug, Eq)]
pub struct ProjectCode(String);

impl View for ProjectCode {
    type V = Seq<char>;

    closed spec fn view(&self) -> Seq<char> {
        self.0@
    }
}

impl PartialEq for ProjectCode {
    fn eq(&self, other: &Self) -> (r: bool) {
        self.0 == other.0
    }
}

impl vstd::std_specs::cmp::PartialEqSpecImpl for ProjectCode {
    open spec fn obeys_eq_spec() -> bool {
        true
    }

    open spec fn eq_spec(&self, other: &Self) -> bool {
        self@ == other@
    }
}

impl ProjectCode {
    /// Trims the value; it must then be non-empty and made of identifier characters.
    pub fn parse(value: &str) -> (r: Result<Self, DomainError>)
        ensures
            trim_seq(value@).len() == 0 ==> r == Err::<Self, DomainError>(
                DomainError::EmptyProjectCode,
            ),
            trim_seq(value@).len() > 0 && !all_identifier_chars(trim_seq(value@)) ==> (r matches Err(
                DomainError::InvalidProjectCode(t),
            ) && t@ == trim_seq(value@)),
            trim_seq(value@).len() > 0 && all_identifier_chars(trim_seq(value@)) ==> (r matches Ok(
                c,
            ) && c@ == trim_seq(value@)),
    {
        let trimmed = trim(value);
        if trimmed.as_str().is_empty() {
            return Err(DomainError::EmptyProjectCode);
        }
        if !all_identifier_characters(trimmed.as_str()) {
            return Err(DomainError::InvalidProjectCode(trimmed));
        }
        Ok(ProjectCode(trimmed))
    }

    pub fn as_str(&self) -> (r: &str)
        ensures
            r@ == self@,
    {
        self.0.as_str()
    }

    /// A copy of the code.
    pub fn duplicate(&self) -> (r: Self)
        ensures
            r@ == self@,
    {
        ProjectCode(self.0.clone())
    }
}

/// The person who performs or authorizes an audited action.
#[derive(Clone, Debug, Eq)]
pub struct AuditActor(String);

impl View for AuditActor {
    type V = Seq<char>;

    closed spec fn view(&self) -> Seq<char> {
        self.0@
    }
}

impl PartialEq for AuditActor {
    fn eq(&self, other: &Self) -> (r: bool) {
        self.0 == other.0
    }
}

impl vstd::std_specs::cmp::PartialEqSpecImpl for AuditActor {
    open spec fn obeys_eq_spec() -> bool {
        true
    }

    open spec fn eq_spec(&self, other: &Self) -> bool {
        self@ == other@
    }
}

impl AuditActor {
    /// Trims the value; it must then be non-empty.
    pub fn parse(value: &str) -> (r: Result<Self, DomainError>)
        ensures
            trim_seq(value@).len() == 0 ==> r == Err::<Self, DomainError>(
                DomainError::EmptyAuditActor,
            ),
            trim_seq(value@).len() > 0 ==> (r matches Ok(a) && a@ == trim_seq(value@)),
    {
        let trimmed = trim(value);
        if trimmed.as_str().is_empty() {
            return Err(DomainError::EmptyAuditActor);
        }
        Ok(AuditActor(trimmed))
    }

    pub fn as_str(&self) -> (r: &str)
        ensures
            r@ == self@,
    {
        self.0.as_str()
    }

    /// A copy of the actor.
    pub fn duplicate(&self) -> (r: Self)
        ensures
            r@ == self@,
    {
        AuditActor(self.0.clone())
    }
}

/// The justification recorded with an audited action.
#[derive(Clone, Debug, Eq)]
pub struct AuditReason(String);

impl View for AuditReason {
    type V = Seq<char>;

    closed spec fn view(&self) -> Seq<char> {
        self.0@
    }
}

impl PartialEq for AuditReason {
    fn eq(&self, other: &Self) -> (r: bool) {
        self.0 == other.0
    }
}

impl vstd::std_specs::cmp::PartialEqSpecImpl for AuditReason {
    open spec fn obeys_eq_spec() -> bool {
        true
    }

    open spec fn eq_spec(&self, other: &Self) -> bool {
        self@ == other@
    }
}

impl AuditReason {
    /// Trims the value; it must then be non-empty.
    pub fn parse(value: &str) -> (r: Result<Self, DomainError>)
        ensures
            trim_seq(value@).len() == 0 ==> r == Err::<Self, DomainError>(
                DomainError::EmptyAuditReason,
            ),
            trim_seq(value@).len() > 0 ==> (r matches Ok(a) && a@ == trim_seq(value@)),
    {
        let trimmed = trim(value);
        if trimmed.as_str().is_empty() {
            return Err(DomainError::EmptyAuditReason);
        }
        Ok(AuditReason(trimmed))
    }

    pub fn as_str(&self) -> (r: &str)
        ensures
            r@ == self@,
    {
        self.0.as_str()
    }

    /// A copy of the reason.
    pub fn duplicate(&self) -> (r: Self)
        ensures
            r@ == self@,
    {
        AuditReason(self.0.clone())
    }
}

} // verus!
