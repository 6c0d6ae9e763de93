//! Repository domains, their synchronization policies, sync conflicts and
//! the signed snapshots carried to offline field work.

use crate::error::DomainError;
use crate::text::{all_identifier_characters, all_identifier_chars, trim, trim_seq};
use vstd::prelude::*;

verus! {

#[derive(Clone, Copy, Debug, PartialEq, Eq, Structural)]
pub enum ConnectivityMode {
    Connected,
    OfflineField,
}

impl ConnectivityMode {
    /// Offline field work must carry local copies of its references.
    pub fn requires_local_references(self) -> (b: bool)
        ensures
            b == (self == ConnectivityMode::OfflineField),
    {
        match self {
            ConnectivityMode::OfflineField => true,
            ConnectivityMode::Connected => false,
        }
    }

    /// Measurements can always be acquired, connected or not.
    pub fn allows_measurement_acquisition(self) -> (b: bool)
        ensures
            b,
    {
        true
    }

    /// Only connected work may ask for a remote login.
    pub fn can_require_remote_login(self) -> (b: bool)
        ensures
            b == (self == ConnectivityMode::Connected),
    {
        match self {
            ConnectivityMode::Connected => true,
            ConnectivityMode::OfflineField => false,
        }
    }
}

#[derive(Clone, Copy, Debug, PartialEq, Eq, Structural)]
pub enum RepositoryDomain {
    Metrology,
    TestDefinitions,
    InstrumentDrivers,
    ProjectRecords,
    MeasurementData,
    ReportTemplates,
    UpdateCatalog,
}

impl RepositoryDomain {
    pub open spec fn label(self) -> Seq<char> {
        match self {
            RepositoryDomain::Metrology => "metrology"@,
            RepositoryDomain::TestDefinitions => "test_definitions"@,
            RepositoryDomain::InstrumentDrivers => "instrument_drivers"@,
            RepositoryDomain::ProjectRecords => "project_records"@,
            RepositoryDomain::MeasurementData => "measurement_data"@,
            RepositoryDomain::ReportTemplates => "report_templates"@,
            RepositoryDomain::UpdateCatalog => "update_catalog"@,
        }
    }

    pub fn as_str(self) -> (r: &'static str)
        ensures
            r@ == self.label(),
    {
        match self {
            RepositoryDomain::Metrology => "metrology",
            RepositoryDomain::TestDefinitions => "test_definitions",
            RepositoryDomain::InstrumentDrivers => "instrument_drivers",
            RepositoryDomain::ProjectRecords => "project_records",
            RepositoryDomain::MeasurementData => "measurement_data",
            RepositoryDomain::ReportTemplates => "report_templates",
            RepositoryDomain::UpdateCatalog => "update_catalog",
        }
    }
}

/// Every repository domain, in a fixed order.
pub open spec fn repository_domain_seq() -> Seq<RepositoryDomain> {
    seq![
        RepositoryDomain::Metrology,
        RepositoryDomain::TestDefinitions,
        RepositoryDomain::InstrumentDrivers,
        RepositoryDomain::ProjectRecords,
        RepositoryDomain::MeasurementData,
        RepositoryDomain::ReportTemplates,
        RepositoryDomain::UpdateCatalog,
    ]
}

pub fn baseline_repository_domains() -> (r: Vec<RepositoryDomain>)
    ensures
        r@ == repository_domain_seq(),
{
    let r = vec![
        RepositoryDomain::Metrology,
        RepositoryDomain::TestDefinitions,
        RepositoryDomain::InstrumentDrivers,
        RepositoryDomain::ProjectRecords,
        RepositoryDomain::MeasurementData,
        RepositoryDomain::ReportTemplates,
        RepositoryDomain::UpdateCatalog,
    ];
    assert(r@ =~= repository_domain_seq());
    r
}

#[derive(Clone, Copy, Debug, PartialEq, Eq, Structural)]
pub enum SyncDirection {
    LocalOnly,
    PullFromReference,
    PushToReference,
    Bidirectional,
}

pub struct PolicyView {
    pub domain: RepositoryDomain,
    pub sync_direction: SyncDirection,
    pub local_snapshot_required: bool,
}

/// The policy of a domain: records and measurements are synchronized both ways, the
/// rest is pulled from the reference; a local snapshot is kept offline, and always for
/// the domains that measurements depend on.
pub open spec fn policy_spec(domain: RepositoryDomain, connectivity: ConnectivityMode) -> PolicyView {
    PolicyView {
        domain,
        sync_direction: if domain == RepositoryDomain::MeasurementData || domain
            == RepositoryDomain::ProjectRecords {
            SyncDirection::Bidirectional
        } else {
            SyncDirection::PullFromReference
        },
        local_snapshot_required: connectivity == ConnectivityMode::OfflineField || domain
            == RepositoryDomain::Metrology || domain == RepositoryDomain::TestDefinitions || domain
            == RepositoryDomain::InstrumentDrivers || domain == RepositoryDomain::ProjectRecords
            || domain == RepositoryDomain::MeasurementData,
    }
}

#[derive(Clone, Copy, Debug, PartialEq, Eq, Structural)]
pub struct RepositoryPolicy {
    domain: RepositoryDomain,
    sync_direction: SyncDirection,
    local_snapshot_required: bool,
}

impl View for RepositoryPolicy {
    type V = PolicyView;

    closed spec fn view(&self) -> PolicyView {
        PolicyView {
            domain: self.domain,
            sync_direction: self.sync_direction,
            local_snapshot_required: self.local_snapshot_required,
        }
    }
}

impl RepositoryPolicy {
    pub fn new(domain: RepositoryDomain, connectivity: ConnectivityMode) -> (r: Self)
        ensures
            r@ == policy_spec(domain, connectivity),
    {
        let local_snapshot_required = connectivity.requires_local_references() || match domain {
            RepositoryDomain::Metrology | RepositoryDomain::TestDefinitions
            | RepositoryDomain::InstrumentDrivers | RepositoryDomain::ProjectRecords
            | RepositoryDomain::MeasurementData => true,
            _ => false,
        };
        let sync_direction = match domain {
            RepositoryDomain::MeasurementData | RepositoryDomain::ProjectRecords => {
                SyncDirection::Bidirectional
            },
            _ => SyncDirection::PullFromReference,
        };
        RepositoryPolicy { domain, sync_direction, local_snapshot_required }
    }

    pub fn domain(&self) -> (r: RepositoryDomain)
        ensures
            r == self@.domain,
    {
        self.domain
    }

    pub fn sync_direction(&self) -> (r: SyncDirection)
        ensures
            r == self@.sync_direction,
    {
        self.sync_direction
    }

    pub fn local_snapshot_required(&self) -> (r: bool)
        ensures
            r == self@.local_snapshot_required,
    {
        self.local_snapshot_required
    }
}

/// Offline field work keeps a local snapshot of every domain, and no domain is ever
/// pushed one way only or kept purely local.
pub proof fn lemma_offline_policies_keep_local_snapshots(domain: RepositoryDomain)
    ensures
        policy_spec(domain, ConnectivityMode::OfflineField).local_snapshot_required,
        policy_spec(domain, ConnectivityMode::Connected).sync_direction == policy_spec(
            domain,
            ConnectivityMode::OfflineField,
        ).sync_direction,
        policy_spec(domain, ConnectivityMode::Connected).sync_direction
            != SyncDirection::LocalOnly,
        policy_spec(domain, ConnectivityMode::Connected).sync_direction
            != SyncDirection::PushToReference,
{
}

/// Identity of a repository snapshot.
#[derive(Clone, Debug, PartialEq, Eq)]
pub struct RepositorySnapshotId(String);

impl View for RepositorySnapshotId {
    type V = Seq<char>;

    closed spec fn view(&self) -> Seq<char> {
        self.0@
    }
}

impl RepositorySnapshotId {
    /// Trims the value; it must then be non-empty and made of identifier characters.
    pub fn parse(value: &str) -> (r: Result<Self, DomainError>)
        ensures
            trim_seq(value@).len() == 0 ==> r == Err::<Self, DomainError>(
                DomainError::EmptyRepositorySnapshotId,
            ),
            trim_seq(value@).len() > 0 && !all_identifier_chars(trim_seq(value@)) ==> (r matches Err(
                DomainError::InvalidRepositorySnapshotId(t),
            ) && t@ == trim_seq(value@)),
            trim_seq(value@).len() > 0 && all_identifier_chars(trim_seq(value@)) ==> (r matches Ok(
                c,
            ) && c@ == trim_seq(value@)),
    {
        let trimmed = trim(value);
        if trimmed.as_str().is_empty() {
            return Err(DomainError::EmptyRepositorySnapshotId);
        }
        if !all_identifier_characters(trimmed.as_str()) {
            return Err(DomainError::InvalidRepositorySnapshotId(trimmed));
        }
        Ok(RepositorySnapshotId(trimmed))
    }

    pub fn as_str(&self) -> (r: &str)
        ensures
            r@ == self@,
    {
        self.0.as_str()
    }
}

/// Identity of a synchronization conflict.
#[derive(Clone, Debug, PartialEq, Eq)]
pub struct SyncConflictId(String);

impl View for SyncConflictId {
    type V = Seq<char>;

    closed spec fn view(&self) -> Seq<char> {
        self.0@
    }
}

impl SyncConflictId {
    /// Trims the value; it must then be non-empty and made of identifier characters.
    pub fn parse(value: &str) -> (r: Result<Self, DomainError>)
        ensures
            trim_seq(value@).len() == 0 ==> r == Err::<Self, DomainError>(
                DomainError::EmptySyncConflictId,
            ),
            trim_seq(value@).len() > 0 && !all_identifier_chars(trim_seq(value@)) ==> (r matches Err(
                DomainError::InvalidSyncConflictId(t),
            ) && t@ == trim_seq(value@)),
            trim_seq(value@).len() > 0 && all_identifier_chars(trim_seq(value@)) ==> (r matches Ok(
                c,
            ) && c@ == trim_seq(value@)),
    {
        let trimmed = trim(value);
        if trimmed.as_str().is_empty() {
            return Err(DomainError::EmptySyncConflictId);
        }
        if !all_identifier_characters(trimmed.as_str()) {
            return Err(DomainError::InvalidSyncConflictId(trimmed));
        }
        Ok(SyncConflictId(trimmed))
    }

    pub fn as_str(&self) -> (r: &str)
        ensures
            r@ == self@,
    {
        self.0.as_str()
    }
}

#[derive(Clone, Copy, Debug, PartialEq, Eq, Structural)]
pub enum SyncConflictKind {
    ConcurrentUpdate,
    DeletedInReference,
    DeletedLocally,
    ChecksumMismatch,
    SchemaMismatch,
}

#[derive(Clone, Copy, Debug, PartialEq, Eq, Structural)]
pub enum SyncConflictStatus {
    Open,
    Resolved,
    Deferred,
}

#[derive(Clone, Copy, Debug, PartialEq, Eq, Structural)]
pub enum SyncConflictResolution {
    KeepLocal,
    KeepReference,
    ManualMerge,
    AcceptDeletion,
    Defer,
}

pub struct ConflictView {
    pub id: Seq<char>,
    pub domain: RepositoryDomain,
    pub kind: SyncConflictKind,
    pub local_snapshot: Seq<char>,
    pub reference_snapshot: Seq<char>,
    pub status: SyncConflictStatus,
    pub resolution: Option<SyncConflictResolution>,
}

/// A divergence between a local snapshot and its reference, and how it was settled.
#[derive(Clone, Debug, PartialEq, Eq)]
pub struct SyncConflictRecord {
    id: SyncConflictId,
    domain: RepositoryDomain,
    kind: SyncConflictKind,
    local_snapshot: RepositorySnapshotId,
    reference_snapshot: RepositorySnapshotId,
    status: SyncConflictStatus,
    resolution: Option<SyncConflictResolution>,
}

impl View for SyncConflictRecord {
    type V = ConflictView;

    closed spec fn view(&self) -> ConflictView {
        ConflictView {
            id: self.id@,
            domain: self.domain,
            kind: self.kind,
            local_snapshot: self.local_snapshot@,
            reference_snapshot: self.reference_snapshot@,
            status: self.status,
            resolution: self.resolution,
        }
    }
}

impl SyncConflictRecord {
    /// A new conflict is open and unresolved.
    pub fn new(
        id: SyncConflictId,
        domain: RepositoryDomain,
        kind: SyncConflictKind,
        local_snapshot: RepositorySnapshotId,
        reference_snapshot: RepositorySnapshotId,
    ) -> (r: Self)
        ensures
            r@ == (ConflictView {
                id: id@,
                domain,
                kind,
                local_snapshot: local_snapshot@,
                reference_snapshot: reference_snapshot@,
                status: SyncConflictStatus::Open,
                resolution: None,
            }),
    {
        SyncConflictRecord {
            id,
            domain,
            kind,
            local_snapshot,
            reference_snapshot,
            status: SyncConflictStatus::Open,
            resolution: None,
        }
    }

    pub fn id(&self) -> (r: &SyncConflictId)
        ensures
            r@ == self@.id,
    {
        &self.id
    }

    pub fn domain(&self) -> (r: RepositoryDomain)
        ensures
            r == self@.domain,
    {
        self.domain
    }

    pub fn kind(&self) -> (r: SyncConflictKind)
        ensures
            r == self@.kind,
    {
        self.kind
    }

    pub fn local_snapshot(&self) -> (r: &RepositorySnapshotId)
        ensures
            r@ == self@.local_snapshot,
    {
        &self.local_snapshot
    }

    pub fn reference_snapshot(&self) -> (r: &RepositorySnapshotId)
        ensures
            r@ == self@.reference_snapshot,
    {
        &self.reference_snapshot
    }

    pub fn status(&self) -> (r: SyncConflictStatus)
        ensures
            r == self@.status,
    {
        self.status
    }

    pub fn resolution(&self) -> (r: Option<SyncConflictResolution>)
        ensures
            r == self@.resolution,
    {
        self.resolution
    }

    /// Settles an open or deferred conflict: deferring keeps it pending, any other
    /// resolution closes it. A resolved conflict cannot be settled again.
    pub fn resolve(&mut self, resolution: SyncConflictResolution) -> (r: Result<(), DomainError>)
        ensures
            old(self)@.status == SyncConflictStatus::Resolved ==> (r matches Err(
                DomainError::SyncConflictAlreadyResolved(t),
            ) && t@ == old(self)@.id && final(self)@ == old(self)@),
            old(self)@.status != SyncConflictStatus::Resolved ==> r is Ok && final(self)@ == (
            ConflictView {
                status: if resolution == SyncConflictResolution::Defer {
                    SyncConflictStatus::Deferred
                } else {
                    SyncConflictStatus::Resolved
                },
                resolution: Some(resolution),
                ..old(self)@
            }),
    {
        if self.status == SyncConflictStatus::Resolved {
            return Err(DomainError::SyncConflictAlreadyResolved(self.id.as_str().to_owned()));
        }
        self.status = match resolution {
            SyncConflictResolution::Defer => SyncConflictStatus::Deferred,
            _ => SyncConflictStatus::Resolved,
        };
        self.resolution = Some(resolution);
        Ok(())
    }
}

/// The checksum of a repository snapshot.
#[derive(Clone, Debug, PartialEq, Eq)]
pub struct SnapshotChecksum(String);

impl View for SnapshotChecksum {
    type V = Seq<char>;

    closed spec fn view(&self) -> Seq<char> {
        self.0@
    }
}

impl SnapshotChecksum {
    /// Trims the value; it must then be non-empty.
    pub fn parse(value: &str) -> (r: Result<Self, DomainError>)
        ensures
            trim_seq(value@).len() == 0 ==> r == Err::<Self, DomainError>(
                DomainError::EmptySnapshotChecksum,
            ),
            trim_seq(value@).len() > 0 ==> (r matches Ok(c) && c@ == trim_seq(value@)),
    {
        let trimmed = trim(value);
        if trimmed.as_str().is_empty() {
            return Err(DomainError::EmptySnapshotChecksum);
        }
        Ok(SnapshotChecksum(trimmed))
    }

    pub fn as_str(&self) -> (r: &str)
        ensures
            r@ == self@,
    {
        self.0.as_str()
    }
}

pub struct SnapshotView {
    pub domain: RepositoryDomain,
    pub id: Seq<char>,
    pub schema_version: u32,
    pub checksum: Seq<char>,
    pub signed: bool,
}

/// A versioned, possibly signed copy of one repository domain.
#[derive(Clone, Debug, PartialEq, Eq)]
pub struct RepositorySnapshot {
    domain: RepositoryDomain,
    id: RepositorySnapshotId,
    schema_version: u32,
    checksum: SnapshotChecksum,
    signed: bool,
}

impl View for RepositorySnapshot {
    type V = SnapshotView;

    closed spec fn view(&self) -> SnapshotView {
        SnapshotView {
            domain: self.domain,
            id: self.id@,
            schema_version: self.schema_version,
            checksum: self.checksum@,
            signed: self.signed,
        }
    }
}

impl RepositorySnapshot {
    /// Schema versions start at 1.
    pub fn new(
        domain: RepositoryDomain,
        id: RepositorySnapshotId,
        schema_version: u32,
        checksum: SnapshotChecksum,
        signed: bool,
    ) -> (r: Result<Self, DomainError>)
        ensures
            schema_version == 0 ==> r == Err::<Self, DomainError>(
                DomainError::InvalidRepositorySchemaVersion(schema_version),
            ),
            schema_version > 0 ==> (r matches Ok(s) && s@ == (SnapshotView {
                domain,
                id: id@,
                schema_version,
                checksum: checksum@,
                signed,
            })),
    {
        if schema_version == 0 {
            return Err(DomainError::InvalidRepositorySchemaVersion(schema_version));
        }
        Ok(RepositorySnapshot { domain, id, schema_version, checksum, signed })
    }

    pub fn domain(&self) -> (r: RepositoryDomain)
        ensures
            r == self@.domain,
    {
        self.domain
    }

    pub fn id(&self) -> (r: &RepositorySnapshotId)
        ensures
            r@ == self@.id,
    {
        &self.id
    }

    pub fn schema_version(&self) -> (r: u32)
        ensures
            r == self@.schema_version,
    {
        self.schema_version
    }

    pub fn checksum(&self) -> (r: &SnapshotChecksum)
        ensures
            r@ == self@.checksum,
    {
        &self.checksum
    }

    pub fn signed(&self) -> (r: bool)
        ensures
            r == self@.signed,
    {
        self.signed
    }
}

/// What field work needs of the snapshot of one domain.
#[derive(Clone, Copy, Debug, PartialEq, Eq, Structural)]
pub struct RepositorySnapshotRequirement {
    domain: RepositoryDomain,
    minimum_schema_version: u32,
    signature_required: bool,
}

pub struct RequirementView {
    pub domain: RepositoryDomain,
    pub minimum_schema_version: u32,
    pub signature_required: bool,
}

impl View for RepositorySnapshotRequirement {
    type V = RequirementView;

    closed spec fn view(&self) -> RequirementView {
        RequirementView {
            domain: self.domain,
            minimum_schema_version: self.minimum_schema_version,
            signature_required: self.signature_required,
        }
    }
}

impl RepositorySnapshotRequirement {
    /// The minimum schema version starts at 1.
    pub fn new(domain: RepositoryDomain, minimum_schema_version: u32, signature_required: bool) -> (r:
        Result<Self, DomainError>)
        ensures
            minimum_schema_version == 0 ==> r == Err::<Self, DomainError>(
                DomainError::InvalidRepositorySchemaVersion(minimum_schema_version),
            ),
            minimum_schema_version > 0 ==> (r matches Ok(x) && x@ == (RequirementView {
                domain,
                minimum_schema_version,
                signature_required,
            })),
    {
        if minimum_schema_version == 0 {
            return Err(DomainError::InvalidRepositorySchemaVersion(minimum_schema_version));
        }
        Ok(RepositorySnapshotRequirement { domain, minimum_schema_version, signature_required })
    }

    pub fn domain(&self) -> (r: RepositoryDomain)
        ensures
            r == self@.domain,
    {
        self.domain
    }

    pub fn minimum_schema_version(&self) -> (r: u32)
        ensures
            r == self@.minimum_schema_version,
    {
        self.minimum_schema_version
    }

    pub fn signature_required(&self) -> (r: bool)
        ensures
            r == self@.signature_required,
    {
        self.signature_required
    }
}

/// Field work needs a signed snapshot, schema version 1 or later, of every domain.
pub fn offline_field_snapshot_requirements() -> (r: Vec<RepositorySnapshotRequirement>)
    ensures
        r@.len() == repository_domain_seq().len(),
        forall|i: int|
            0 <= i < r@.len() ==> (#[trigger] r@[i])@ == (RequirementView {
                domain: repository_domain_seq()[i],
                minimum_schema_version: 1,
                signature_required: true,
            }),
{
    let domains = baseline_repository_domains();
    let mut r: Vec<RepositorySnapshotRequirement> = Vec::new();
    let mut k: usize = 0;
    while k < domains.len()
        invariant
            domains@ == repository_domain_seq(),
            k <= domains@.len(),
            r@.len() == k,
            forall|i: int|
                0 <= i < k ==> (#[trigger] r@[i])@ == (RequirementView {
                    domain: repository_domain_seq()[i],
                    minimum_schema_version: 1,
                    signature_required: true,
                }),
        decreases domains@.len() - k,
    {
        r.push(
            RepositorySnapshotRequirement {
                domain: domains[k],
                minimum_schema_version: 1,
                signature_required: true,
            },
        );
        k = k + 1;
    }
    r
}

/// Position of the first snapshot of the domain; the length when there is none.
pub open spec fn snapshot_index(s: Seq<SnapshotView>, domain: RepositoryDomain) -> int
    decreases s.len(),
{
    if s.len() == 0 {
        0
    } else if s[0].domain == domain {
        0
    } else {
        1 + snapshot_index(s.drop_first(), domain)
    }
}

proof fn lemma_snapshot_index_is(s: Seq<SnapshotView>, domain: RepositoryDomain, k: int)
    requires
        0 <= k <= s.len(),
        forall|j: int| 0 <= j < k ==> (#[trigger] s[j]).domain != domain,
        k < s.len() ==> s[k].domain == domain,
    ensures
        snapshot_index(s, domain) == k,
    decreases k,
{
    if k > 0 {
        assert forall|j: int| 0 <= j < k - 1 implies (#[trigger] s.drop_first()[j]).domain
            != domain by {
            assert(s.drop_first()[j] == s[j + 1]);
        }
        lemma_snapshot_index_is(s.drop_first(), domain, k - 1);
    }
}

/// No two snapshots of the same domain.
pub open spec fn distinct_domains(s: Seq<SnapshotView>) -> bool {
    forall|i: int, j: int| 0 <= i < j < s.len() ==> s[i].domain != s[j].domain
}

/// Position of the first snapshot whose domain appeared before; the length if none.
pub open spec fn first_repeated_domain(s: Seq<SnapshotView>) -> int
    decreases s.len(),
{
    if s.len() == 0 {
        0
    } else if first_repeated_domain(s.drop_last()) < s.len() - 1 {
        first_repeated_domain(s.drop_last())
    } else if snapshot_index(s.drop_last(), s.last().domain) < s.len() - 1 {
        s.len() - 1
    } else {
        s.len() as int
    }
}

pub proof fn lemma_snapshot_index(s: Seq<SnapshotView>, domain: RepositoryDomain)
    ensures
        0 <= snapshot_index(s, domain) <= s.len(),
        forall|j: int| 0 <= j < snapshot_index(s, domain) ==> (#[trigger] s[j]).domain != domain,
        snapshot_index(s, domain) < s.len() ==> s[snapshot_index(s, domain)].domain == domain,
    decreases s.len(),
{
    if s.len() > 0 && s[0].domain != domain {
        lemma_snapshot_index(s.drop_first(), domain);
        assert forall|j: int| 0 <= j < snapshot_index(s, domain) implies (#[trigger] s[j]).domain
            != domain by {
            if j > 0 {
                assert(s[j] == s.drop_first()[j - 1]);
            }
        }
    }
}

proof fn lemma_first_repeat_prefix(s: Seq<SnapshotView>, m: int)
    requires
        0 <= m <= s.len(),
        first_repeated_domain(s.take(m)) < m,
    ensures
        first_repeated_domain(s) == first_repeated_domain(s.take(m)),
    decreases s.len() - m,
{
    if m < s.len() {
        assert(s.take(m + 1).drop_last() =~= s.take(m));
        lemma_first_repeat_prefix(s, m + 1);
    } else {
        assert(s.take(m) =~= s);
    }
}

/// Why a package fails one requirement.
pub enum RequirementFailure {
    Missing,
    Unsigned,
    Incompatible { actual: u32 },
}

pub open spec fn requirement_failure(
    s: Seq<SnapshotView>,
    req: RequirementView,
) -> Option<RequirementFailure> {
    let i = snapshot_index(s, req.domain);
    if i >= s.len() {
        Some(RequirementFailure::Missing)
    } else if req.signature_required && !s[i].signed {
        Some(RequirementFailure::Unsigned)
    } else if s[i].schema_version < req.minimum_schema_version {
        Some(RequirementFailure::Incompatible { actual: s[i].schema_version })
    } else {
        None
    }
}

/// The first requirement the package fails, with why.
pub open spec fn first_failure(
    s: Seq<SnapshotView>,
    reqs: Seq<RequirementView>,
) -> Option<(RequirementView, RequirementFailure)>
    decreases reqs.len(),
{
    if reqs.len() == 0 {
        None
    } else {
        match requirement_failure(s, reqs[0]) {
            Some(f) => Some((reqs[0], f)),
            None => first_failure(s, reqs.drop_first()),
        }
    }
}

/// The error that reports a failed requirement.
pub open spec fn is_failure_error(
    e: DomainError,
    req: RequirementView,
    f: RequirementFailure,
) -> bool {
    match f {
        RequirementFailure::Missing => e matches DomainError::MissingRepositorySnapshot(d) && d@
            == req.domain.label(),
        RequirementFailure::Unsigned => e matches DomainError::UnsignedRepositorySnapshot(d) && d@
            == req.domain.label(),
        RequirementFailure::Incompatible { actual } => e matches DomainError::IncompatibleRepositorySnapshot {
            domain: d,
            minimum_schema_version: m,
            actual_schema_version: a,
        } && d@ == req.domain.label() && m == req.minimum_schema_version && a
            == actual,
    }
}

/// The snapshots carried to offline field work, at most one per domain.
#[derive(Clone, Debug, PartialEq, Eq)]
pub struct FieldRepositoryPackage {
    snapshots: Vec<RepositorySnapshot>,
}

impl View for FieldRepositoryPackage {
    type V = Seq<SnapshotView>;

    closed spec fn view(&self) -> Seq<SnapshotView> {
        self.snapshots@.map_values(|s: RepositorySnapshot| s@)
    }
}

impl FieldRepositoryPackage {
    /// A package holds at most one snapshot per domain; the first repeated domain is
    /// reported.
    pub fn new(snapshots: Vec<RepositorySnapshot>) -> (r: Result<Self, DomainError>)
        ensures
            ({
                let s = snapshots@.map_values(|x: RepositorySnapshot| x@);
                let k = first_repeated_domain(s);
                &&& k < s.len() ==> (r matches Err(DomainError::DuplicateRepositorySnapshot(d))
                    && d@ == s[k].domain.label())
                &&& k >= s.len() ==> (r matches Ok(p) && p@ == s)
            }),
            r matches Ok(p) ==> distinct_domains(p@),
    {
        let ghost s = snapshots@.map_values(|x: RepositorySnapshot| x@);
        let mut seen: Vec<RepositoryDomain> = Vec::new();
        let mut k: usize = 0;
        while k < snapshots.len()
            invariant
                s == snapshots@.map_values(|x: RepositorySnapshot| x@),
                k <= snapshots@.len(),
                seen@ == s.take(k as int).map_values(|x: SnapshotView| x.domain),
                first_repeated_domain(s.take(k as int)) >= k,
                distinct_domains(s.take(k as int)),
            decreases snapshots@.len() - k,
        {
            let domain = snapshots[k].domain();
            let mut found = false;
            let mut j: usize = 0;
            while j < seen.len()
                invariant
                    j <= seen@.len(),
                    seen@ == s.take(k as int).map_values(|x: SnapshotView| x.domain),
                    k < s.len(),
                    domain == s[k as int].domain,
                    found == exists|i: int| 0 <= i < j && seen@[i] == domain,
                decreases seen@.len() - j,
            {
                if seen[j] == domain {
                    found = true;
                }
                j = j + 1;
            }
            let ghost prefix = s.take(k as int);
            let ghost next = s.take(k + 1);
            proof {
                assert(next.drop_last() =~= prefix);
                assert(next.last() == s[k as int]);
                lemma_snapshot_index(prefix, domain);
                if found {
                    let i = choose|i: int| 0 <= i < j && seen@[i] == domain;
                    assert(prefix[i].domain == domain);
                    lemma_first_repeat_prefix(s, k + 1);
                } else {
                    assert forall|i: int| 0 <= i < prefix.len() implies (#[trigger] prefix[i]).domain
                        != domain by {
                        assert(seen@[i] == prefix[i].domain);
                    }
                    assert forall|a: int, b: int| 0 <= a < b < next.len() implies next[a].domain
                        != next[b].domain by {
                        if b < k {
                            assert(next[a] == prefix[a] && next[b] == prefix[b]);
                        } else {
                            assert(next[a] == prefix[a]);
                        }
                    }
                }
            }
            if found {
                return Err(DomainError::DuplicateRepositorySnapshot(domain.as_str().to_owned()));
            }
            seen.push(domain);
            k = k + 1;
        }
        assert(s.take(k as int) =~= s);
        Ok(FieldRepositoryPackage { snapshots })
    }

    pub fn snapshots(&self) -> (r: &[RepositorySnapshot])
        ensures
            r@.map_values(|x: RepositorySnapshot| x@) == self@,
    {
        self.snapshots.as_slice()
    }

    /// The first snapshot of the domain.
    pub fn snapshot_for(&self, domain: RepositoryDomain) -> (r: Option<&RepositorySnapshot>)
        ensures
            ({
                let i = snapshot_index(self@, domain);
                match r {
                    Some(x) => i < self@.len() && x@ == self@[i],
                    None => i >= self@.len(),
                }
            }),
    {
        let mut k: usize = 0;
        while k < self.snapshots.len()
            invariant
                k <= self@.len(),
                forall|j: int| 0 <= j < k ==> (#[trigger] self@[j]).domain != domain,
            decreases self@.len() - k,
        {
            if self.snapshots[k].domain() == domain {
                proof {
                    lemma_snapshot_index_is(self@, domain, k as int);
                }
                return Some(&self.snapshots[k]);
            }
            k = k + 1;
        }
        proof {
            lemma_snapshot_index_is(self@, domain, k as int);
        }
        None
    }

    /// Checks the requirements in order and reports the first one the package fails:
    /// a missing snapshot, a missing signature, then a schema version too old.
    pub fn validate(&self, requirements: &[RepositorySnapshotRequirement]) -> (r: Result<
        (),
        DomainError,
    >)
        ensures
            match first_failure(self@, requirements@.map_values(|q: RepositorySnapshotRequirement| q@)) {
                None => r is Ok,
                Some(f) => r matches Err(e) && is_failure_error(e, f.0, f.1),
            },
    {
        let ghost reqs = requirements@.map_values(|q: RepositorySnapshotRequirement| q@);
        assert(reqs.subrange(0, reqs.len() as int) =~= reqs);
        let mut k: usize = 0;
        while k < requirements.len()
            invariant
                k <= requirements@.len(),
                reqs == requirements@.map_values(|q: RepositorySnapshotRequirement| q@),
                first_failure(self@, reqs) == first_failure(
                    self@,
                    reqs.subrange(k as int, reqs.len() as int),
                ),
            decreases requirements@.len() - k,
        {
            let requirement = requirements[k];
            let ghost rest = reqs.subrange(k as int, reqs.len() as int);
            proof {
                assert(rest[0] == requirement@);
                assert(rest.drop_first() =~= reqs.subrange(k + 1, reqs.len() as int));
            }
            let snapshot = match self.snapshot_for(requirement.domain()) {
                Some(s) => s,
                None => {
                    return Err(
                        DomainError::MissingRepositorySnapshot(
                            requirement.domain().as_str().to_owned(),
                        ),
                    );
                },
            };
            if requirement.signature_required() && !snapshot.signed() {
                return Err(
                    DomainError::UnsignedRepositorySnapshot(requirement.domain().as_str().to_owned()),
                );
            }
            if snapshot.schema_version() < requirement.minimum_schema_version() {
                return Err(
                    DomainError::IncompatibleRepositorySnapshot {
                        domain: requirement.domain().as_str().to_owned(),
                        minimum_schema_version: requirement.minimum_schema_version(),
                        actual_schema_version: snapshot.schema_version(),
                    },
                );
            }
            k = k + 1;
        }
        Ok(())
    }
}

/// A package passes validation exactly when it meets every requirement.
pub proof fn lemma_validation_checks_every_requirement(
    s: Seq<SnapshotView>,
    reqs: Seq<RequirementView>,
)
    ensures
        first_failure(s, reqs) is None <==> (forall|i: int|
            0 <= i < reqs.len() ==> requirement_failure(s, #[trigger] reqs[i]) is None),
    decreases reqs.len(),
{
    if reqs.len() > 0 {
        lemma_validation_checks_every_requirement(s, reqs.drop_first());
        if first_failure(s, reqs) is None {
            assert forall|i: int| 0 <= i < reqs.len() implies requirement_failure(
                s,
                #[trigger] reqs[i],
            ) is None by {
                if i > 0 {
                    assert(reqs[i] == reqs.drop_first()[i - 1]);
                }
            }
        }
        if forall|i: int| 0 <= i < reqs.len() ==> requirement_failure(s, #[trigger] reqs[i]) is None {
            assert(requirement_failure(s, reqs[0]) is None);
            assert forall|i: int| 0 <= i < reqs.drop_first().len() implies requirement_failure(
                s,
                #[trigger] reqs.drop_first()[i],
            ) is None by {
                assert(reqs.drop_first()[i] == reqs[i + 1]);
            }
        }
    }
}

/// A package with one signed, current snapshot of every domain passes the offline field
/// requirements.
pub proof fn lemma_complete_signed_package_goes_offline(s: Seq<SnapshotView>)
    requires
        forall|d: RepositoryDomain|
            #![trigger snapshot_index(s, d)]
            snapshot_index(s, d) < s.len() && s[snapshot_index(s, d)].signed && s[snapshot_index(
                s,
                d,
            )].schema_version >= 1,
    ensures
        forall|i: int|
            0 <= i < repository_domain_seq().len() ==> requirement_failure(
                s,
                RequirementView {
                    domain: #[trigger] repository_domain_seq()[i],
                    minimum_schema_version: 1,
                    signature_required: true,
                },
            ) is None,
{
}

} // verus!
