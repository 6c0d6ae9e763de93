//! References to stored datasets: their kind, identity, file and checksum.

use crate::error::DomainError;
use crate::text::{
    all_identifier_characters, all_identifier_chars, str_eq, trim, trim_seq,
};
use vstd::prelude::*;

verus! {

/// What a stored dataset holds.
#[derive(Clone, Copy, Debug, PartialEq, Eq, Structural)]
pub enum DatasetKind {
    RawSignal,
    RawSweep,
    CommandLog,
    ProcessedSignal,
    ResultTable,
    ReportExport,
}

/// Identity of a stored dataset.
#[derive(Clone, Debug, Eq)]
pub struct DatasetReference(String);

impl View for DatasetReference {
    type V = Seq<char>;

    closed spec fn view(&self) -> Seq<char> {
        self.0@
    }
}

impl PartialEq for DatasetReference {
    fn eq(&self, other: &Self) -> (r: bool) {
        self.0 == other.0
    }
}

impl vstd::std_specs::cmp::PartialEqSpecImpl for DatasetReference {
    open spec fn obeys_eq_spec() -> bool {
        true
    }

    open spec fn eq_spec(&self, other: &Self) -> bool {
        self@ == other@
    }
}

impl DatasetReference {
    /// Trims the value; it must then be non-empty and made of identifier characters.
    pub fn parse(value: &str) -> (r: Result<Self, DomainError>)
        ensures
            trim_seq(value@).len() == 0 ==> r == Err::<Self, DomainError>(
                DomainError::EmptyDatasetReference,
            ),
            trim_seq(value@).len() > 0 && !all_identifier_chars(trim_seq(value@)) ==> (r matches Err(
                DomainError::InvalidDatasetReference(t),
            ) && t@ == trim_seq(value@)),
            trim_seq(value@).len() > 0 && all_identifier_chars(trim_seq(value@)) ==> (r matches Ok(
                c,
            ) && c@ == trim_seq(value@)),
    {
        let trimmed = trim(value);
        if trimmed.as_str().is_empty() {
            return Err(DomainError::EmptyDatasetReference);
        }
        if !all_identifier_characters(trimmed.as_str()) {
            return Err(DomainError::InvalidDatasetReference(trimmed));
        }
        Ok(DatasetReference(trimmed))
    }

    pub fn as_str(&self) -> (r: &str)
        ensures
            r@ == self@,
    {
        self.0.as_str()
    }
}

/// Where a dataset file is stored.
#[derive(Clone, Debug, PartialEq, Eq)]
pub struct DatasetFileReference(String);

impl View for DatasetFileReference {
    type V = Seq<char>;

    closed spec fn view(&self) -> Seq<char> {
        self.0@
    }
}

impl DatasetFileReference {
    /// Trims the value; it must then be non-empty.
    pub fn parse(value: &str) -> (r: Result<Self, DomainError>)
        ensures
            trim_seq(value@).len() == 0 ==> r == Err::<Self, DomainError>(
                DomainError::EmptyDatasetFileReference,
            ),
            trim_seq(value@).len() > 0 ==> (r matches Ok(c) && c@ == trim_seq(value@)),
    {
        let trimmed = trim(value);
        if trimmed.as_str().is_empty() {
            return Err(DomainError::EmptyDatasetFileReference);
        }
        Ok(DatasetFileReference(trimmed))
    }

    pub fn as_str(&self) -> (r: &str)
        ensures
            r@ == self@,
    {
        self.0.as_str()
    }
}

/// A lowercase hexadecimal digit.
pub open spec fn is_lower_hex(c: char) -> bool {
    ('0' <= c && c <= '9') || ('a' <= c && c <= 'f')
}

/// `sha256:` followed by 64 lowercase hexadecimal digits.
pub open spec fn is_sha256_checksum(s: Seq<char>) -> bool {
    &&& s.len() == 71
    &&& s.subrange(0, 7) == "sha256:"@
    &&& forall|i: int| 7 <= i < 71 ==> is_lower_hex(#[trigger] s[i])
}

/// The SHA-256 checksum of a dataset, `sha256:` and 64 lowercase hexadecimal digits.
#[derive(Clone, Debug, PartialEq, Eq)]
pub struct DatasetChecksum(String);

impl View for DatasetChecksum {
    type V = Seq<char>;

    closed spec fn view(&self) -> Seq<char> {
        self.0@
    }
}

impl DatasetChecksum {
    /// Trims the value; it must then be a SHA-256 checksum.
    pub fn parse(value: &str) -> (r: Result<Self, DomainError>)
        ensures
            is_sha256_checksum(trim_seq(value@)) ==> (r matches Ok(c) && c@ == trim_seq(value@)),
            !is_sha256_checksum(trim_seq(value@)) ==> (r matches Err(
                DomainError::InvalidDatasetChecksum(t),
            ) && t@ == trim_seq(value@)),
    {
        let trimmed = trim(value);
        let text = trimmed.as_str();
        let n = text.unicode_len();
        if n != 71 {
            return Err(DomainError::InvalidDatasetChecksum(trimmed));
        }
        if !str_eq(text.substring_char(0, 7), "sha256:") {
            return Err(DomainError::InvalidDatasetChecksum(trimmed));
        }
        let mut i: usize = 7;
        assert(text@.subrange(0, 7) == "sha256:"@);
        while i < 71
            invariant
                text@ == trimmed@,
                trimmed@ == trim_seq(value@),
                text@.subrange(0, 7) == "sha256:"@,
                text@.len() == 71,
                7 <= i <= 71,
                forall|k: int| 7 <= k < i ==> is_lower_hex(#[trigger] text@[k]),
            decreases 71 - i,
        {
            let c = text.get_char(i);
            if !(('0' <= c && c <= '9') || ('a' <= c && c <= 'f')) {
                assert(!is_lower_hex(text@[i as int]));
                return Err(DomainError::InvalidDatasetChecksum(trimmed));
            }
            i = i + 1;
        }
        Ok(DatasetChecksum(trimmed))
    }

    pub fn as_str(&self) -> (r: &str)
        ensures
            r@ == self@,
    {
        self.0.as_str()
    }
}

} // verus!
