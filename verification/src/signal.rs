//! Time-domain signal acquisition: channels and datasets, processing graphs
//! with the raw lineage of every derived signal, and integer signal operations.

use crate::datasets::{DatasetChecksum, DatasetFileReference, DatasetKind, DatasetReference};
use crate::error::DomainError;
use crate::identifiers::AuditActor;
use crate::text::{
    all_identifier_characters, all_identifier_chars, lemma_trim_noop, trim, trim_seq,
};
use vstd::arithmetic::power2::{
    lemma2_to64, lemma_pow2_pos, lemma_pow2_strictly_increases, lemma_pow2_unfold, pow2,
};
use vstd::prelude::*;

verus! {

#[derive(Clone, Copy, Debug, PartialEq, Eq, Structural)]
pub enum MeasurementAxis {
    FrequencySweep,
    TimeSeries,
    EventTriggered,
    MixedTimeFrequency,
}

#[derive(Clone, Copy, Debug, PartialEq, Eq, Structural)]
pub enum DaqInterface {
    OpenDaq,
    VendorSdk,
    Usb,
    Ethernet,
    EtherCat,
    Pcie,
    SoundCard,
    VisaDigitizer,
    FileReplay,
    Simulated,
}

impl DaqInterface {
    /// The vendor-neutral acquisition interface.
    pub fn preferred_generic() -> (r: Self)
        ensures
            r == DaqInterface::OpenDaq,
    {
        DaqInterface::OpenDaq
    }
}

#[derive(Clone, Copy, Debug, PartialEq, Eq, Structural)]
pub enum SignalSourceKind {
    AnalogVoltage,
    AnalogCurrent,
    DigitalInput,
    Counter,
    Encoder,
    BusFrame,
    VideoFrame,
    DerivedSignal,
}

#[derive(Clone, Copy, Debug, PartialEq, Eq, Structural)]
pub enum SynchronizationMethod {
    SharedSampleClock,
    ExternalTrigger,
    StartTrigger,
    PtpIeee1588,
    GpsGnss,
    IrigB,
    EtherCatDistributedClock,
    HardwareTimestamp,
    SoftwareTimestamp,
    CrossCorrelationPostAlignment,
}

/// Every synchronization method, from the tightest clock sharing to post alignment.
pub open spec fn synchronization_method_seq() -> Seq<SynchronizationMethod> {
    seq![
        SynchronizationMethod::SharedSampleClock,
        SynchronizationMethod::ExternalTrigger,
        SynchronizationMethod::StartTrigger,
        SynchronizationMethod::PtpIeee1588,
        SynchronizationMethod::GpsGnss,
        SynchronizationMethod::IrigB,
        SynchronizationMethod::EtherCatDistributedClock,
        SynchronizationMethod::HardwareTimestamp,
        SynchronizationMethod::SoftwareTimestamp,
        SynchronizationMethod::CrossCorrelationPostAlignment,
    ]
}

pub fn baseline_synchronization_methods() -> (r: Vec<SynchronizationMethod>)
    ensures
        r@ == synchronization_method_seq(),
{
    let r = vec![
        SynchronizationMethod::SharedSampleClock,
        SynchronizationMethod::ExternalTrigger,
        SynchronizationMethod::StartTrigger,
        SynchronizationMethod::PtpIeee1588,
        SynchronizationMethod::GpsGnss,
        SynchronizationMethod::IrigB,
        SynchronizationMethod::EtherCatDistributedClock,
        SynchronizationMethod::HardwareTimestamp,
        SynchronizationMethod::SoftwareTimestamp,
        SynchronizationMethod::CrossCorrelationPostAlignment,
    ];
    assert(r@ =~= synchronization_method_seq());
    r
}

#[derive(Clone, Copy, Debug, PartialEq, Eq, Structural)]
pub enum SignalProcessingOperation {
    Fft,
    WindowedFft,
    Ifft,
    TimeDomainFilter,
    ChannelArithmetic,
    MathExpression,
    HarmonicAnalysis,
    InrushAnalysis,
    EventCounting,
    EdgeTiming,
    Resampling,
    CrossCorrelation,
    Rms,
    Peak,
    Envelope,
}

/// Every processing operation of the time-domain toolbox.
pub open spec fn processing_operation_seq() -> Seq<SignalProcessingOperation> {
    seq![
        SignalProcessingOperation::Fft,
        SignalProcessingOperation::WindowedFft,
        SignalProcessingOperation::Ifft,
        SignalProcessingOperation::TimeDomainFilter,
        SignalProcessingOperation::ChannelArithmetic,
        SignalProcessingOperation::MathExpression,
        SignalProcessingOperation::HarmonicAnalysis,
        SignalProcessingOperation::InrushAnalysis,
        SignalProcessingOperation::EventCounting,
        SignalProcessingOperation::EdgeTiming,
        SignalProcessingOperation::Resampling,
        SignalProcessingOperation::CrossCorrelation,
        SignalProcessingOperation::Rms,
        SignalProcessingOperation::Peak,
        SignalProcessingOperation::Envelope,
    ]
}

pub fn baseline_signal_processing_operations() -> (r: Vec<SignalProcessingOperation>)
    ensures
        r@ == processing_operation_seq(),
{
    let r = vec![
        SignalProcessingOperation::Fft,
        SignalProcessingOperation::WindowedFft,
        SignalProcessingOperation::Ifft,
        SignalProcessingOperation::TimeDomainFilter,
        SignalProcessingOperation::ChannelArithmetic,
        SignalProcessingOperation::MathExpression,
        SignalProcessingOperation::HarmonicAnalysis,
        SignalProcessingOperation::InrushAnalysis,
        SignalProcessingOperation::EventCounting,
        SignalProcessingOperation::EdgeTiming,
        SignalProcessingOperation::Resampling,
        SignalProcessingOperation::CrossCorrelation,
        SignalProcessingOperation::Rms,
        SignalProcessingOperation::Peak,
        SignalProcessingOperation::Envelope,
    ];
    assert(r@ =~= processing_operation_seq());
    r
}

#[derive(Clone, Copy, Debug, PartialEq, Eq, Structural)]
pub enum CemTimeDomainTestFamily {
    RailwayHarmonics,
    AxleCounter,
    InrushCurrent,
    TransientCapture,
    PowerQuality,
    PulsedDisturbance,
    Custom,
}

/// Identity of a signal (an acquired channel or a derived output), such as `voltage_l1`.
#[derive(Clone, Debug, Eq)]
pub struct SignalReference(String);

impl View for SignalReference {
    type V = Seq<char>;

    closed spec fn view(&self) -> Seq<char> {
        self.0@
    }
}

impl PartialEq for SignalReference {
    fn eq(&self, other: &Self) -> (r: bool) {
        self.0 == other.0
    }
}

impl vstd::std_specs::cmp::PartialEqSpecImpl for SignalReference {
    open spec fn obeys_eq_spec() -> bool {
        true
    }

    open spec fn eq_spec(&self, other: &Self) -> bool {
        self@ == other@
    }
}

impl SignalReference {
    /// Trims the value; it must then be non-empty and made of identifier characters.
    pub fn parse(value: &str) -> (r: Result<Self, DomainError>)
        ensures
            trim_seq(value@).len() == 0 ==> r == Err::<Self, DomainError>(
                DomainError::EmptySignalReference,
            ),
            trim_seq(value@).len() > 0 && !all_identifier_chars(trim_seq(value@)) ==> (r matches Err(
                DomainError::InvalidSignalReference(t),
            ) && t@ == trim_seq(value@)),
            trim_seq(value@).len() > 0 && all_identifier_chars(trim_seq(value@)) ==> (r matches Ok(
                c,
            ) && c@ == trim_seq(value@)),
    {
        let trimmed = trim(value);
        if trimmed.as_str().is_empty() {
            return Err(DomainError::EmptySignalReference);
        }
        if !all_identifier_characters(trimmed.as_str()) {
            return Err(DomainError::InvalidSignalReference(trimmed));
        }
        Ok(SignalReference(trimmed))
    }

    pub fn as_str(&self) -> (r: &str)
        ensures
            r@ == self@,
    {
        self.0.as_str()
    }

    /// A copy of the reference.
    pub fn duplicate(&self) -> (r: Self)
        ensures
            r@ == self@,
    {
        SignalReference(self.0.clone())
    }
}

/// Identity of a processing graph definition.
#[derive(Clone, Debug, PartialEq, Eq)]
pub struct ProcessingGraphReference(String);

impl View for ProcessingGraphReference {
    type V = Seq<char>;

    closed spec fn view(&self) -> Seq<char> {
        self.0@
    }
}

impl ProcessingGraphReference {
    /// Trims the value; it must then be non-empty and made of identifier characters.
    pub fn parse(value: &str) -> (r: Result<Self, DomainError>)
        ensures
            trim_seq(value@).len() == 0 ==> r == Err::<Self, DomainError>(
                DomainError::EmptyProcessingGraphReference,
            ),
            trim_seq(value@).len() > 0 && !all_identifier_chars(trim_seq(value@)) ==> (r matches Err(
                DomainError::InvalidProcessingGraphReference(t),
            ) && t@ == trim_seq(value@)),
            trim_seq(value@).len() > 0 && all_identifier_chars(trim_seq(value@)) ==> (r matches Ok(
                c,
            ) && c@ == trim_seq(value@)),
    {
        let trimmed = trim(value);
        if trimmed.as_str().is_empty() {
            return Err(DomainError::EmptyProcessingGraphReference);
        }
        if !all_identifier_characters(trimmed.as_str()) {
            return Err(DomainError::InvalidProcessingGraphReference(trimmed));
        }
        Ok(ProcessingGraphReference(trimmed))
    }

    pub fn as_str(&self) -> (r: &str)
        ensures
            r@ == self@,
    {
        self.0.as_str()
    }

    /// A copy of the reference.
    pub fn duplicate(&self) -> (r: Self)
        ensures
            r@ == self@,
    {
        ProcessingGraphReference(self.0.clone())
    }
}

/// Revision label of a processing graph definition.
#[derive(Clone, Debug, PartialEq, Eq)]
pub struct ProcessingGraphRevision(String);

impl View for ProcessingGraphRevision {
    type V = Seq<char>;

    closed spec fn view(&self) -> Seq<char> {
        self.0@
    }
}

impl ProcessingGraphRevision {
    /// Trims the value; it must then be non-empty.
    pub fn parse(value: &str) -> (r: Result<Self, DomainError>)
        ensures
            trim_seq(value@).len() == 0 ==> r == Err::<Self, DomainError>(
                DomainError::EmptyProcessingGraphRevision,
            ),
            trim_seq(value@).len() > 0 ==> (r matches Ok(c) && c@ == trim_seq(value@)),
    {
        let trimmed = trim(value);
        if trimmed.as_str().is_empty() {
            return Err(DomainError::EmptyProcessingGraphRevision);
        }
        Ok(ProcessingGraphRevision(trimmed))
    }

    pub fn as_str(&self) -> (r: &str)
        ensures
            r@ == self@,
    {
        self.0.as_str()
    }

    /// A copy of the revision.
    pub fn duplicate(&self) -> (r: Self)
        ensures
            r@ == self@,
    {
        ProcessingGraphRevision(self.0.clone())
    }
}

/// Unit of the samples of a signal, such as `mV`.
#[derive(Clone, Debug, PartialEq, Eq)]
pub struct SignalUnit(String);

impl View for SignalUnit {
    type V = Seq<char>;

    closed spec fn view(&self) -> Seq<char> {
        self.0@
    }
}

impl SignalUnit {
    /// Trims the value; it must then be non-empty.
    pub fn parse(value: &str) -> (r: Result<Self, DomainError>)
        ensures
            trim_seq(value@).len() == 0 ==> r == Err::<Self, DomainError>(
                DomainError::EmptySignalUnit,
            ),
            trim_seq(value@).len() > 0 ==> (r matches Ok(c) && c@ == trim_seq(value@)),
    {
        let trimmed = trim(value);
        if trimmed.as_str().is_empty() {
            return Err(DomainError::EmptySignalUnit);
        }
        Ok(SignalUnit(trimmed))
    }

    pub fn as_str(&self) -> (r: &str)
        ensures
            r@ == self@,
    {
        self.0.as_str()
    }

    /// A copy of the unit.
    pub fn duplicate(&self) -> (r: Self)
        ensures
            r@ == self@,
    {
        SignalUnit(self.0.clone())
    }
}

/// A sample rate in hertz, never zero.
#[derive(Clone, Copy, Debug, PartialEq, Eq, PartialOrd, Ord, Structural)]
pub struct SampleRateHz(u32);

impl View for SampleRateHz {
    type V = u32;

    closed spec fn view(&self) -> u32 {
        self.0
    }
}

impl SampleRateHz {
    pub fn new(value: u32) -> (r: Result<Self, DomainError>)
        ensures
            value == 0 ==> r == Err::<Self, DomainError>(DomainError::InvalidSampleRateHz(value)),
            value != 0 ==> (r matches Ok(s) && s@ == value),
    {
        if value == 0 {
            return Err(DomainError::InvalidSampleRateHz(value));
        }
        Ok(SampleRateHz(value))
    }

    pub fn value(&self) -> (r: u32)
        ensures
            r == self@,
    {
        self.0
    }
}

pub struct ChannelView {
    pub reference: Seq<char>,
    pub source_kind: SignalSourceKind,
    pub unit: Seq<char>,
    pub sample_rate: u32,
    pub samples: Seq<i64>,
}

/// One acquired channel: its identity, source, unit, rate and integer samples.
#[derive(Clone, Debug, PartialEq, Eq)]
pub struct AcquiredSignalChannel {
    reference: SignalReference,
    source_kind: SignalSourceKind,
    unit: SignalUnit,
    sample_rate: SampleRateHz,
    samples: Vec<i64>,
}

impl View for AcquiredSignalChannel {
    type V = ChannelView;

    closed spec fn view(&self) -> ChannelView {
        ChannelView {
            reference: self.reference@,
            source_kind: self.source_kind,
            unit: self.unit@,
            sample_rate: self.sample_rate@,
            samples: self.samples@,
        }
    }
}

impl AcquiredSignalChannel {
    pub fn new(
        reference: SignalReference,
        source_kind: SignalSourceKind,
        unit: SignalUnit,
        sample_rate: SampleRateHz,
        samples: Vec<i64>,
    ) -> (r: Self)
        ensures
            r@ == (ChannelView {
                reference: reference@,
                source_kind,
                unit: unit@,
                sample_rate: sample_rate@,
                samples: samples@,
            }),
    {
        AcquiredSignalChannel { reference, source_kind, unit, sample_rate, samples }
    }

    pub fn reference(&self) -> (r: &SignalReference)
        ensures
            r@ == self@.reference,
    {
        &self.reference
    }

    pub fn source_kind(&self) -> (r: SignalSourceKind)
        ensures
            r == self@.source_kind,
    {
        self.source_kind
    }

    pub fn unit(&self) -> (r: &SignalUnit)
        ensures
            r@ == self@.unit,
    {
        &self.unit
    }

    pub fn sample_rate(&self) -> (r: SampleRateHz)
        ensures
            r@ == self@.sample_rate,
    {
        self.sample_rate
    }

    pub fn samples(&self) -> (r: &[i64])
        ensures
            r@ == self@.samples,
    {
        self.samples.as_slice()
    }
}

/// Position of the first channel with the reference; the length when there is none.
pub open spec fn channel_index(s: Seq<ChannelView>, reference: Seq<char>) -> int
    decreases s.len(),
{
    if s.len() == 0 {
        0
    } else if s[0].reference == reference {
        0
    } else {
        1 + channel_index(s.drop_first(), reference)
    }
}

proof fn lemma_channel_index_is(s: Seq<ChannelView>, reference: Seq<char>, k: int)
    requires
        0 <= k <= s.len(),
        forall|j: int| 0 <= j < k ==> (#[trigger] s[j]).reference != reference,
        k < s.len() ==> s[k].reference == reference,
    ensures
        channel_index(s, reference) == k,
    decreases k,
{
    if k > 0 {
        assert forall|j: int| 0 <= j < k - 1 implies (#[trigger] s.drop_first()[j]).reference
            != reference by {
            assert(s.drop_first()[j] == s[j + 1]);
        }
        lemma_channel_index_is(s.drop_first(), reference, k - 1);
    }
}

pub struct DatasetView {
    pub daq_interface: DaqInterface,
    pub synchronization_method: SynchronizationMethod,
    pub channels: Seq<ChannelView>,
}

/// Acquired channels from one DAQ, synchronized by one method; never empty.
#[derive(Clone, Debug, PartialEq, Eq)]
pub struct SignalDataset {
    daq_interface: DaqInterface,
    synchronization_method: SynchronizationMethod,
    channels: Vec<AcquiredSignalChannel>,
}

impl View for SignalDataset {
    type V = DatasetView;

    closed spec fn view(&self) -> DatasetView {
        DatasetView {
            daq_interface: self.daq_interface,
            synchronization_method: self.synchronization_method,
            channels: self.channels@.map_values(|c: AcquiredSignalChannel| c@),
        }
    }
}

impl SignalDataset {
    pub fn new(
        daq_interface: DaqInterface,
        synchronization_method: SynchronizationMethod,
        channels: Vec<AcquiredSignalChannel>,
    ) -> (r: Result<Self, DomainError>)
        ensures
            channels@.len() == 0 ==> r == Err::<Self, DomainError>(DomainError::EmptySignalDataset),
            channels@.len() > 0 ==> (r matches Ok(d) && d@ == (DatasetView {
                daq_interface,
                synchronization_method,
                channels: channels@.map_values(|c: AcquiredSignalChannel| c@),
            })),
    {
        if channels.len() == 0 {
            return Err(DomainError::EmptySignalDataset);
        }
        Ok(SignalDataset { daq_interface, synchronization_method, channels })
    }

    pub fn daq_interface(&self) -> (r: DaqInterface)
        ensures
            r == self@.daq_interface,
    {
        self.daq_interface
    }

    pub fn synchronization_method(&self) -> (r: SynchronizationMethod)
        ensures
            r == self@.synchronization_method,
    {
        self.synchronization_method
    }

    pub fn channels(&self) -> (r: &[AcquiredSignalChannel])
        ensures
            r@.map_values(|c: AcquiredSignalChannel| c@) == self@.channels,
    {
        self.channels.as_slice()
    }

    /// The first channel with the reference.
    pub fn channel(&self, reference: &SignalReference) -> (r: Option<&AcquiredSignalChannel>)
        ensures
            ({
                let i = channel_index(self@.channels, reference@);
                match r {
                    Some(c) => i < self@.channels.len() && c@ == self@.channels[i],
                    None => i >= self@.channels.len(),
                }
            }),
    {
        let mut k: usize = 0;
        while k < self.channels.len()
            invariant
                k <= self.channels@.len(),
                forall|j: int| 0 <= j < k ==> (#[trigger] self@.channels[j]).reference
                    != reference@,
            decreases self.channels@.len() - k,
        {
            if self.channels[k].reference().eq(reference) {
                proof {
                    lemma_channel_index_is(self@.channels, reference@, k as int);
                }
                return Some(&self.channels[k]);
            }
            k = k + 1;
        }
        proof {
            lemma_channel_index_is(self@.channels, reference@, k as int);
        }
        None
    }
}

pub open spec fn references_view(s: Seq<SignalReference>) -> Seq<Seq<char>> {
    s.map_values(|r: SignalReference| r@)
}

/// The items appended one by one to `acc`, each only if it is not there yet.
pub open spec fn dedup_append(acc: Seq<Seq<char>>, items: Seq<Seq<char>>) -> Seq<Seq<char>>
    decreases items.len(),
{
    if items.len() == 0 {
        acc
    } else {
        let prev = dedup_append(acc, items.drop_last());
        if prev.contains(items.last()) {
            prev
        } else {
            prev.push(items.last())
        }
    }
}

pub proof fn lemma_dedup_append_concat(acc: Seq<Seq<char>>, a: Seq<Seq<char>>, b: Seq<Seq<char>>)
    ensures
        dedup_append(acc, a + b) == dedup_append(dedup_append(acc, a), b),
    decreases b.len(),
{
    if b.len() == 0 {
        assert(a + b =~= a);
    } else {
        assert((a + b).drop_last() =~= a + b.drop_last());
        assert((a + b).last() == b.last());
        lemma_dedup_append_concat(acc, a, b.drop_last());
    }
}

/// Does not hold the same item twice.
pub open spec fn no_duplicates(s: Seq<Seq<char>>) -> bool {
    forall|i: int, j: int| 0 <= i < j < s.len() ==> s[i] != s[j]
}

proof fn lemma_push_contains(s: Seq<Seq<char>>, v: Seq<char>, x: Seq<char>)
    ensures
        s.push(v).contains(x) <==> (s.contains(x) || x == v),
{
    if s.contains(x) {
        let i = choose|i: int| 0 <= i < s.len() && s[i] == x;
        assert(s.push(v)[i] == x);
    }
    if x == v {
        assert(s.push(v)[s.len() as int] == v);
    }
    if s.push(v).contains(x) {
        let i = choose|i: int| 0 <= i < s.push(v).len() && s.push(v)[i] == x;
        if i < s.len() {
            assert(s[i] == x);
        }
    }
}

pub proof fn lemma_dedup_append_shape(acc: Seq<Seq<char>>, items: Seq<Seq<char>>)
    ensures
        no_duplicates(acc) ==> no_duplicates(dedup_append(acc, items)),
        forall|x: Seq<char>| #[trigger] dedup_append(acc, items).contains(x) <==> (acc.contains(x)
            || items.contains(x)),
    decreases items.len(),
{
    if items.len() == 0 {
        assert forall|x: Seq<char>| #[trigger] dedup_append(acc, items).contains(x) <==> (
        acc.contains(x) || items.contains(x)) by {}
    } else {
        let init = items.drop_last();
        let last = items.last();
        lemma_dedup_append_shape(acc, init);
        let prev = dedup_append(acc, init);
        assert(items =~= init.push(last));
        assert forall|x: Seq<char>| #[trigger] dedup_append(acc, items).contains(x) <==> (
        acc.contains(x) || items.contains(x)) by {
            lemma_push_contains(init, last, x);
            lemma_push_contains(prev, last, x);
        }
        if no_duplicates(acc) && !prev.contains(last) {
            assert forall|i: int, j: int|
                0 <= i < j < prev.push(last).len() implies prev.push(last)[i] != prev.push(
                last,
            )[j] by {
                if j == prev.len() {
                    assert(prev[i] == prev.push(last)[i]);
                }
            }
        }
    }
}

pub struct NodeView {
    pub id: Seq<char>,
    pub operation: SignalProcessingOperation,
    pub inputs: Seq<Seq<char>>,
    pub output: Seq<char>,
}

/// One processing step: an operation from input signals to an output signal.
#[derive(Clone, Debug, PartialEq, Eq)]
pub struct SignalProcessingNode {
    id: SignalReference,
    operation: SignalProcessingOperation,
    inputs: Vec<SignalReference>,
    output: SignalReference,
}

impl View for SignalProcessingNode {
    type V = NodeView;

    closed spec fn view(&self) -> NodeView {
        NodeView {
            id: self.id@,
            operation: self.operation,
            inputs: references_view(self.inputs@),
            output: self.output@,
        }
    }
}

impl SignalProcessingNode {
    /// A node needs at least one input.
    pub fn new(
        id: SignalReference,
        operation: SignalProcessingOperation,
        inputs: Vec<SignalReference>,
        output: SignalReference,
    ) -> (r: Result<Self, DomainError>)
        ensures
            inputs@.len() == 0 ==> r == Err::<Self, DomainError>(
                DomainError::EmptyProcessingNodeInputs,
            ),
            inputs@.len() > 0 ==> (r matches Ok(n) && n@ == (NodeView {
                id: id@,
                operation,
                inputs: references_view(inputs@),
                output: output@,
            })),
    {
        if inputs.len() == 0 {
            return Err(DomainError::EmptyProcessingNodeInputs);
        }
        Ok(SignalProcessingNode { id, operation, inputs, output })
    }

    pub fn id(&self) -> (r: &SignalReference)
        ensures
            r@ == self@.id,
    {
        &self.id
    }

    pub fn operation(&self) -> (r: SignalProcessingOperation)
        ensures
            r == self@.operation,
    {
        self.operation
    }

    pub fn inputs(&self) -> (r: &[SignalReference])
        ensures
            references_view(r@) == self@.inputs,
    {
        self.inputs.as_slice()
    }

    pub fn output(&self) -> (r: &SignalReference)
        ensures
            r@ == self@.output,
    {
        &self.output
    }
}

pub struct GraphView {
    pub sources: Seq<Seq<char>>,
    pub nodes: Seq<NodeView>,
}

/// Position of the first node producing the signal; the number of nodes when none does.
pub open spec fn producer_index(nodes: Seq<NodeView>, signal: Seq<char>) -> int
    decreases nodes.len(),
{
    if nodes.len() == 0 {
        0
    } else if nodes[0].output == signal {
        0
    } else {
        1 + producer_index(nodes.drop_first(), signal)
    }
}

pub proof fn lemma_producer_index(nodes: Seq<NodeView>, signal: Seq<char>)
    ensures
        0 <= producer_index(nodes, signal) <= nodes.len(),
        forall|j: int| 0 <= j < producer_index(nodes, signal) ==> (#[trigger] nodes[j]).output
            != signal,
        producer_index(nodes, signal) < nodes.len() ==> nodes[producer_index(nodes, signal)].output
            == signal,
    decreases nodes.len(),
{
    if nodes.len() > 0 && nodes[0].output != signal {
        lemma_producer_index(nodes.drop_first(), signal);
        assert forall|j: int| 0 <= j < producer_index(nodes, signal) implies (
        #[trigger] nodes[j]).output != signal by {
            if j > 0 {
                assert(nodes[j] == nodes.drop_first()[j - 1]);
            }
        }
    }
}

proof fn lemma_producer_index_is(nodes: Seq<NodeView>, signal: Seq<char>, k: int)
    requires
        0 <= k <= nodes.len(),
        forall|j: int| 0 <= j < k ==> (#[trigger] nodes[j]).output != signal,
        k < nodes.len() ==> nodes[k].output == signal,
    ensures
        producer_index(nodes, signal) == k,
{
    lemma_producer_index(nodes, signal);
    let i = producer_index(nodes, signal);
    if i < k {
        assert(nodes[i].output == signal);
    }
    if k < i {
        assert(nodes[k].output != signal);
    }
}

pub open spec fn is_source(g: GraphView, signal: Seq<char>) -> bool {
    g.sources.contains(signal)
}

/// An acquired source signal, or the output of some node.
pub open spec fn knows_signal_spec(g: GraphView, signal: Seq<char>) -> bool {
    is_source(g, signal) || producer_index(g.nodes, signal) < g.nodes.len()
}

/// Every input of a node is a source or the output of an earlier node.
pub open spec fn graph_well_formed(g: GraphView) -> bool {
    forall|k: int, i: int|
        0 <= k < g.nodes.len() && 0 <= i < g.nodes[k].inputs.len() ==> is_source(
            g,
            #[trigger] g.nodes[k].inputs[i],
        ) || producer_index(g.nodes, g.nodes[k].inputs[i]) < k
}

/// The source signals reached from `signal`, depth first and in input order, following
/// only producers before `bound`.
pub open spec fn expand(g: GraphView, signal: Seq<char>, bound: nat) -> Seq<Seq<char>>
    decreases bound, 0nat,
{
    if is_source(g, signal) {
        seq![signal]
    } else {
        let k = producer_index(g.nodes, signal);
        if 0 <= k < g.nodes.len() && k < bound {
            expand_all(g, g.nodes[k].inputs, k as nat)
        } else {
            seq![]
        }
    }
}

/// `expand` of each input, concatenated in order.
pub open spec fn expand_all(g: GraphView, inputs: Seq<Seq<char>>, bound: nat) -> Seq<Seq<char>>
    decreases bound, inputs.len() + 1,
{
    if inputs.len() == 0 {
        seq![]
    } else {
        expand_all(g, inputs.drop_last(), bound) + expand(g, inputs.last(), bound)
    }
}

/// The raw (acquired) signals a signal derives from, each once, in the order found.
pub open spec fn lineage_spec(g: GraphView, signal: Seq<char>) -> Seq<Seq<char>> {
    dedup_append(seq![], expand(g, signal, g.nodes.len()))
}

/// Position of the first input the graph does not know; the number of inputs if none.
pub open spec fn first_unknown_input(g: GraphView, inputs: Seq<Seq<char>>) -> int
    decreases inputs.len(),
{
    if inputs.len() == 0 {
        0
    } else if !knows_signal_spec(g, inputs[0]) {
        0
    } else {
        1 + first_unknown_input(g, inputs.drop_first())
    }
}

proof fn lemma_first_unknown_input_is(g: GraphView, inputs: Seq<Seq<char>>, k: int)
    requires
        0 <= k <= inputs.len(),
        forall|j: int| 0 <= j < k ==> knows_signal_spec(g, #[trigger] inputs[j]),
        k < inputs.len() ==> !knows_signal_spec(g, inputs[k]),
    ensures
        first_unknown_input(g, inputs) == k,
    decreases k,
{
    if k > 0 {
        assert forall|j: int| 0 <= j < k - 1 implies knows_signal_spec(
            g,
            #[trigger] inputs.drop_first()[j],
        ) by {
            assert(inputs.drop_first()[j] == inputs[j + 1]);
        }
        lemma_first_unknown_input_is(g, inputs.drop_first(), k - 1);
    }
}

pub open spec fn has_node_id(g: GraphView, id: Seq<char>) -> bool {
    exists|k: int| 0 <= k < g.nodes.len() && (#[trigger] g.nodes[k]).id == id
}

pub open spec fn has_operation(g: GraphView, operation: SignalProcessingOperation) -> bool {
    exists|k: int| 0 <= k < g.nodes.len() && (#[trigger] g.nodes[k]).operation == operation
}

/// The processing steps applied to the signals of one dataset.
#[derive(Clone, Debug, PartialEq, Eq)]
pub struct SignalProcessingGraph {
    source_signals: Vec<SignalReference>,
    nodes: Vec<SignalProcessingNode>,
}

impl View for SignalProcessingGraph {
    type V = GraphView;

    closed spec fn view(&self) -> GraphView {
        GraphView {
            sources: references_view(self.source_signals@),
            nodes: self.nodes@.map_values(|n: SignalProcessingNode| n@),
        }
    }
}

fn contains_reference(list: &Vec<SignalReference>, signal: &SignalReference) -> (b: bool)
    ensures
        b == references_view(list@).contains(signal@),
{
    let mut k: usize = 0;
    while k < list.len()
        invariant
            k <= list@.len(),
            forall|j: int| 0 <= j < k ==> list@[j]@ != signal@,
        decreases list@.len() - k,
    {
        if list[k].eq(signal) {
            assert(references_view(list@)[k as int] == signal@);
            return true;
        }
        k = k + 1;
    }
    proof {
        if references_view(list@).contains(signal@) {
            let j = choose|j: int|
                0 <= j < references_view(list@).len() && references_view(list@)[j] == signal@;
            assert(list@[j]@ == signal@);
        }
    }
    false
}

impl SignalProcessingGraph {
    /// A graph over the channels of a dataset, with no processing yet.
    pub fn from_dataset(dataset: &SignalDataset) -> (r: Self)
        ensures
            r@.sources == dataset@.channels.map_values(|c: ChannelView| c.reference),
            r@.nodes.len() == 0,
            graph_well_formed(r@),
    {
        let mut source_signals: Vec<SignalReference> = Vec::new();
        let mut k: usize = 0;
        while k < dataset.channels.len()
            invariant
                k <= dataset.channels@.len(),
                references_view(source_signals@) == dataset@.channels.take(k as int).map_values(
                    |c: ChannelView| c.reference,
                ),
            decreases dataset.channels@.len() - k,
        {
            let ghost prev = references_view(source_signals@);
            source_signals.push(dataset.channels[k].reference().duplicate());
            assert(references_view(source_signals@) =~= prev.push(
                dataset@.channels[k as int].reference,
            ));
            assert(dataset@.channels.take(k + 1).map_values(|c: ChannelView| c.reference)
                =~= dataset@.channels.take(k as int).map_values(|c: ChannelView| c.reference).push(
                dataset@.channels[k as int].reference,
            ));
            k = k + 1;
        }
        assert(dataset@.channels.take(k as int) =~= dataset@.channels);
        SignalProcessingGraph { source_signals, nodes: Vec::new() }
    }

    pub fn source_signals(&self) -> (r: &[SignalReference])
        ensures
            references_view(r@) == self@.sources,
    {
        self.source_signals.as_slice()
    }

    pub fn nodes(&self) -> (r: &[SignalProcessingNode])
        ensures
            r@.map_values(|n: SignalProcessingNode| n@) == self@.nodes,
    {
        self.nodes.as_slice()
    }

    fn producer_position(&self, signal: &SignalReference) -> (r: usize)
        ensures
            r == producer_index(self@.nodes, signal@),
    {
        let mut k: usize = 0;
        while k < self.nodes.len()
            invariant
                k <= self.nodes@.len(),
                forall|j: int| 0 <= j < k ==> (#[trigger] self@.nodes[j]).output != signal@,
            decreases self.nodes@.len() - k,
        {
            if self.nodes[k].output().eq(signal) {
                proof {
                    lemma_producer_index_is(self@.nodes, signal@, k as int);
                }
                return k;
            }
            k = k + 1;
        }
        proof {
            lemma_producer_index_is(self@.nodes, signal@, k as int);
        }
        k
    }

    fn knows_signal(&self, signal: &SignalReference) -> (b: bool)
        ensures
            b == knows_signal_spec(self@, signal@),
    {
        contains_reference(&self.source_signals, signal) || self.producer_position(signal)
            < self.nodes.len()
    }

    /// Adds a node with a new id whose inputs are all known signals; otherwise the
    /// graph is unchanged.
    pub fn add_node(&mut self, node: SignalProcessingNode) -> (r: Result<(), DomainError>)
        ensures
            has_node_id(old(self)@, node@.id) ==> (r matches Err(
                DomainError::DuplicateProcessingNode(t),
            ) && t@ == node@.id && final(self)@ == old(self)@),
            !has_node_id(old(self)@, node@.id) && first_unknown_input(old(self)@, node@.inputs)
                < node@.inputs.len() ==> (r matches Err(DomainError::UnknownSignalReference(t))
                && t@ == node@.inputs[first_unknown_input(old(self)@, node@.inputs)]
                && final(self)@ == old(self)@),
            !has_node_id(old(self)@, node@.id) && first_unknown_input(old(self)@, node@.inputs)
                >= node@.inputs.len() ==> r is Ok && final(self)@ == (GraphView {
                nodes: old(self)@.nodes.push(node@),
                ..old(self)@
            }),
    {
        let mut k: usize = 0;
        while k < self.nodes.len()
            invariant
                k <= self.nodes@.len(),
                forall|j: int| 0 <= j < k ==> (#[trigger] self@.nodes[j]).id != node@.id,
            decreases self.nodes@.len() - k,
        {
            if self.nodes[k].id().eq(node.id()) {
                assert(self@.nodes[k as int].id == node@.id);
                return Err(DomainError::DuplicateProcessingNode(node.id().as_str().to_owned()));
            }
            k = k + 1;
        }
        let mut i: usize = 0;
        while i < node.inputs.len()
            invariant
                i <= node@.inputs.len(),
                !has_node_id(self@, node@.id),
                forall|j: int| 0 <= j < i ==> knows_signal_spec(self@, #[trigger] node@.inputs[j]),
            decreases node@.inputs.len() - i,
        {
            if !self.knows_signal(&node.inputs[i]) {
                proof {
                    lemma_first_unknown_input_is(self@, node@.inputs, i as int);
                }
                return Err(DomainError::UnknownSignalReference(node.inputs[i].as_str().to_owned()));
            }
            i = i + 1;
        }
        proof {
            lemma_first_unknown_input_is(self@, node@.inputs, i as int);
        }
        let ghost old_nodes = self@.nodes;
        self.nodes.push(node);
        assert(self@.nodes =~= old_nodes.push(node@));
        Ok(())
    }

    /// Some node applies the operation.
    pub fn contains_operation(&self, operation: SignalProcessingOperation) -> (b: bool)
        ensures
            b == has_operation(self@, operation),
    {
        let mut k: usize = 0;
        while k < self.nodes.len()
            invariant
                k <= self.nodes@.len(),
                forall|j: int| 0 <= j < k ==> (#[trigger] self@.nodes[j]).operation != operation,
            decreases self.nodes@.len() - k,
        {
            if self.nodes[k].operation() == operation {
                assert(self@.nodes[k as int].operation == operation);
                return true;
            }
            k = k + 1;
        }
        false
    }

    pub fn has_nodes(&self) -> (b: bool)
        ensures
            b == (self@.nodes.len() > 0),
    {
        self.nodes.len() > 0
    }

    /// The raw signals a known signal derives from (see `lineage_spec`).
    pub fn raw_lineage_for(&self, signal: &SignalReference) -> (r: Result<
        Vec<SignalReference>,
        DomainError,
    >)
        ensures
            !knows_signal_spec(self@, signal@) ==> (r matches Err(
                DomainError::UnknownSignalReference(t),
            ) && t@ == signal@),
            knows_signal_spec(self@, signal@) ==> (r matches Ok(l) && references_view(l@)
                == lineage_spec(self@, signal@)),
    {
        if !self.knows_signal(signal) {
            return Err(DomainError::UnknownSignalReference(signal.as_str().to_owned()));
        }
        let mut lineage: Vec<SignalReference> = Vec::new();
        assert(references_view(lineage@) =~= Seq::<Seq<char>>::empty());
        self.collect_raw_lineage(signal, self.nodes.len(), &mut lineage);
        Ok(lineage)
    }

    fn collect_raw_lineage(
        &self,
        signal: &SignalReference,
        bound: usize,
        lineage: &mut Vec<SignalReference>,
    )
        ensures
            references_view(final(lineage)@) == dedup_append(
                references_view(old(lineage)@),
                expand(self@, signal@, bound as nat),
            ),
        decreases bound,
    {
        if contains_reference(&self.source_signals, signal) {
            if !contains_reference(lineage, signal) {
                let ghost before = references_view(lineage@);
                lineage.push(signal.duplicate());
                assert(references_view(lineage@) =~= before.push(signal@));
            }
            proof {
                let ghost acc = references_view(old(lineage)@);
                assert(seq![signal@].drop_last() =~= Seq::<Seq<char>>::empty());
                assert(dedup_append(acc, Seq::<Seq<char>>::empty()) == acc);
            }
            return;
        }
        let k = self.producer_position(signal);
        if k < self.nodes.len() && k < bound {
            let node = &self.nodes[k];
            let ghost inputs = node@.inputs;
            let ghost start = references_view(lineage@);
            let mut i: usize = 0;
            while i < node.inputs.len()
                invariant
                    k < self.nodes@.len(),
                    k < bound,
                    node@ == self@.nodes[k as int],
                    inputs == node@.inputs,
                    i <= inputs.len(),
                    references_view(lineage@) == dedup_append(
                        start,
                        expand_all(self@, inputs.take(i as int), k as nat),
                    ),
                decreases inputs.len() - i,
            {
                let ghost before = references_view(lineage@);
                self.collect_raw_lineage(&node.inputs[i], k, lineage);
                proof {
                    assert(inputs.take(i + 1).drop_last() =~= inputs.take(i as int));
                    assert(inputs.take(i + 1).last() == inputs[i as int]);
                    lemma_dedup_append_concat(
                        start,
                        expand_all(self@, inputs.take(i as int), k as nat),
                        expand(self@, inputs[i as int], k as nat),
                    );
                }
                i = i + 1;
            }
            assert(inputs.take(i as int) =~= inputs);
        } else {
            assert(expand(self@, signal@, bound as nat) =~= Seq::<Seq<char>>::empty());
        }
    }
}

pub struct InstanceView {
    pub reference: Seq<char>,
    pub revision: Seq<char>,
    pub source_dataset: Seq<char>,
    pub source_dataset_checksum: Seq<char>,
    pub graph: GraphView,
    pub definition_checksum: Seq<char>,
    pub created_by: Seq<char>,
    pub software_version: Seq<char>,
}

/// A frozen processing graph applied to one dataset, with what is needed to reproduce it.
#[derive(Clone, Debug, PartialEq, Eq)]
pub struct ProcessingGraphInstance {
    reference: ProcessingGraphReference,
    revision: ProcessingGraphRevision,
    source_dataset: DatasetReference,
    source_dataset_checksum: DatasetChecksum,
    graph: SignalProcessingGraph,
    definition_checksum: DatasetChecksum,
    created_by: AuditActor,
    software_version: String,
}

impl View for ProcessingGraphInstance {
    type V = InstanceView;

    closed spec fn view(&self) -> InstanceView {
        InstanceView {
            reference: self.reference@,
            revision: self.revision@,
            source_dataset: self.source_dataset@,
            source_dataset_checksum: self.source_dataset_checksum@,
            graph: self.graph@,
            definition_checksum: self.definition_checksum@,
            created_by: self.created_by@,
            software_version: self.software_version@,
        }
    }
}

impl ProcessingGraphInstance {
    /// The graph must hold at least one node; the software version is trimmed and must
    /// not be empty.
    pub fn new(
        reference: ProcessingGraphReference,
        revision: ProcessingGraphRevision,
        source_dataset: DatasetReference,
        source_dataset_checksum: DatasetChecksum,
        graph: SignalProcessingGraph,
        definition_checksum: DatasetChecksum,
        created_by: AuditActor,
        software_version: &str,
    ) -> (r: Result<Self, DomainError>)
        ensures
            graph@.nodes.len() == 0 ==> (r matches Err(
                DomainError::EmptyProcessingGraphDefinition(t),
            ) && t@ == reference@),
            graph@.nodes.len() > 0 && trim_seq(software_version@).len() == 0 ==> r == Err::<
                Self,
                DomainError,
            >(DomainError::EmptyProcessingGraphSoftwareVersion),
            graph@.nodes.len() > 0 && trim_seq(software_version@).len() > 0 ==> (r matches Ok(i)
                && i@ == (InstanceView {
                reference: reference@,
                revision: revision@,
                source_dataset: source_dataset@,
                source_dataset_checksum: source_dataset_checksum@,
                graph: graph@,
                definition_checksum: definition_checksum@,
                created_by: created_by@,
                software_version: trim_seq(software_version@),
            })),
    {
        if !graph.has_nodes() {
            return Err(DomainError::EmptyProcessingGraphDefinition(reference.as_str().to_owned()));
        }
        let software_version = trim(software_version);
        if software_version.as_str().is_empty() {
            return Err(DomainError::EmptyProcessingGraphSoftwareVersion);
        }
        Ok(
            ProcessingGraphInstance {
                reference,
                revision,
                source_dataset,
                source_dataset_checksum,
                graph,
                definition_checksum,
                created_by,
                software_version,
            },
        )
    }

    pub fn reference(&self) -> (r: &ProcessingGraphReference)
        ensures
            r@ == self@.reference,
    {
        &self.reference
    }

    pub fn revision(&self) -> (r: &ProcessingGraphRevision)
        ensures
            r@ == self@.revision,
    {
        &self.revision
    }

    pub fn source_dataset(&self) -> (r: &DatasetReference)
        ensures
            r@ == self@.source_dataset,
    {
        &self.source_dataset
    }

    pub fn source_dataset_checksum(&self) -> (r: &DatasetChecksum)
        ensures
            r@ == self@.source_dataset_checksum,
    {
        &self.source_dataset_checksum
    }

    pub fn graph(&self) -> (r: &SignalProcessingGraph)
        ensures
            r@ == self@.graph,
    {
        &self.graph
    }

    pub fn definition_checksum(&self) -> (r: &DatasetChecksum)
        ensures
            r@ == self@.definition_checksum,
    {
        &self.definition_checksum
    }

    pub fn created_by(&self) -> (r: &AuditActor)
        ensures
            r@ == self@.created_by,
    {
        &self.created_by
    }

    pub fn software_version(&self) -> (r: &str)
        ensures
            r@ == self@.software_version,
    {
        self.software_version.as_str()
    }

    pub fn contains_operation(&self, operation: SignalProcessingOperation) -> (b: bool)
        ensures
            b == has_operation(self@.graph, operation),
    {
        self.graph.contains_operation(operation)
    }

    pub fn raw_lineage_for(&self, signal: &SignalReference) -> (r: Result<
        Vec<SignalReference>,
        DomainError,
    >)
        ensures
            !knows_signal_spec(self@.graph, signal@) ==> (r matches Err(
                DomainError::UnknownSignalReference(t),
            ) && t@ == signal@),
            knows_signal_spec(self@.graph, signal@) ==> (r matches Ok(l) && references_view(l@)
                == lineage_spec(self@.graph, signal@)),
    {
        self.graph.raw_lineage_for(signal)
    }
}

/// The name under which a dataset kind is stored.
pub open spec fn kind_slug(kind: DatasetKind) -> Seq<char> {
    match kind {
        DatasetKind::RawSignal => "raw_signal"@,
        DatasetKind::RawSweep => "raw_sweep"@,
        DatasetKind::CommandLog => "command_log"@,
        DatasetKind::ProcessedSignal => "processed_signal"@,
        DatasetKind::ResultTable => "result_table"@,
        DatasetKind::ReportExport => "report_export"@,
    }
}

fn dataset_kind_slug(kind: DatasetKind) -> (r: &'static str)
    ensures
        r@ == kind_slug(kind),
{
    match kind {
        DatasetKind::RawSignal => "raw_signal",
        DatasetKind::RawSweep => "raw_sweep",
        DatasetKind::CommandLog => "command_log",
        DatasetKind::ProcessedSignal => "processed_signal",
        DatasetKind::ResultTable => "result_table",
        DatasetKind::ReportExport => "report_export",
    }
}

pub struct ArtifactView {
    pub graph_reference: Seq<char>,
    pub graph_revision: Seq<char>,
    pub output_signal: Seq<char>,
    pub kind: DatasetKind,
    pub file_reference: Seq<char>,
    pub checksum: Seq<char>,
    pub raw_lineage: Seq<Seq<char>>,
}

/// A stored result of a processing graph, with the raw signals it derives from.
#[derive(Clone, Debug, PartialEq, Eq)]
pub struct ProcessingGraphResultArtifact {
    graph_reference: ProcessingGraphReference,
    graph_revision: ProcessingGraphRevision,
    output_signal: SignalReference,
    kind: DatasetKind,
    file_reference: DatasetFileReference,
    checksum: DatasetChecksum,
    raw_lineage: Vec<SignalReference>,
}

impl View for ProcessingGraphResultArtifact {
    type V = ArtifactView;

    closed spec fn view(&self) -> ArtifactView {
        ArtifactView {
            graph_reference: self.graph_reference@,
            graph_revision: self.graph_revision@,
            output_signal: self.output_signal@,
            kind: self.kind,
            file_reference: self.file_reference@,
            checksum: self.checksum@,
            raw_lineage: references_view(self.raw_lineage@),
        }
    }
}

impl ProcessingGraphResultArtifact {
    /// A processed signal or result table produced by the instance, with its lineage.
    pub fn from_instance(
        instance: &ProcessingGraphInstance,
        output_signal: SignalReference,
        kind: DatasetKind,
        file_reference: DatasetFileReference,
        checksum: DatasetChecksum,
    ) -> (r: Result<Self, DomainError>)
        ensures
            !(kind == DatasetKind::ProcessedSignal || kind == DatasetKind::ResultTable) ==> (r matches Err(
                DomainError::InvalidProcessingGraphArtifactKind(t),
            ) && t@ == kind_slug(kind)),
            (kind == DatasetKind::ProcessedSignal || kind == DatasetKind::ResultTable)
                && !knows_signal_spec(instance@.graph, output_signal@) ==> (r matches Err(
                DomainError::UnknownSignalReference(t),
            ) && t@ == output_signal@),
            (kind == DatasetKind::ProcessedSignal || kind == DatasetKind::ResultTable)
                && knows_signal_spec(instance@.graph, output_signal@) ==> (r matches Ok(a) && a@
                == (ArtifactView {
                graph_reference: instance@.reference,
                graph_revision: instance@.revision,
                output_signal: output_signal@,
                kind,
                file_reference: file_reference@,
                checksum: checksum@,
                raw_lineage: lineage_spec(instance@.graph, output_signal@),
            })),
    {
        if !(kind == DatasetKind::ProcessedSignal || kind == DatasetKind::ResultTable) {
            return Err(
                DomainError::InvalidProcessingGraphArtifactKind(
                    dataset_kind_slug(kind).to_owned(),
                ),
            );
        }
        let raw_lineage = match instance.raw_lineage_for(&output_signal) {
            Ok(l) => l,
            Err(e) => {
                return Err(e);
            },
        };
        Ok(
            ProcessingGraphResultArtifact {
                graph_reference: instance.reference().duplicate(),
                graph_revision: instance.revision().duplicate(),
                output_signal,
                kind,
                file_reference,
                checksum,
                raw_lineage,
            },
        )
    }

    pub fn graph_reference(&self) -> (r: &ProcessingGraphReference)
        ensures
            r@ == self@.graph_reference,
    {
        &self.graph_reference
    }

    pub fn graph_revision(&self) -> (r: &ProcessingGraphRevision)
        ensures
            r@ == self@.graph_revision,
    {
        &self.graph_revision
    }

    pub fn output_signal(&self) -> (r: &SignalReference)
        ensures
            r@ == self@.output_signal,
    {
        &self.output_signal
    }

    pub fn kind(&self) -> (r: DatasetKind)
        ensures
            r == self@.kind,
    {
        self.kind
    }

    pub fn file_reference(&self) -> (r: &DatasetFileReference)
        ensures
            r@ == self@.file_reference,
    {
        &self.file_reference
    }

    pub fn checksum(&self) -> (r: &DatasetChecksum)
        ensures
            r@ == self@.checksum,
    {
        &self.checksum
    }

    pub fn raw_lineage(&self) -> (r: &[SignalReference])
        ensures
            references_view(r@) == self@.raw_lineage,
    {
        self.raw_lineage.as_slice()
    }
}

pub struct SeriesView {
    pub output: Seq<char>,
    pub operation: SignalProcessingOperation,
    pub unit: Seq<char>,
    pub samples: Seq<i64>,
    pub raw_lineage: Seq<Seq<char>>,
}

/// An integer series computed from acquired channels.
#[derive(Clone, Debug, PartialEq)]
pub struct SignalSeriesResult {
    output: SignalReference,
    operation: SignalProcessingOperation,
    unit: SignalUnit,
    samples: Vec<i64>,
    raw_lineage: Vec<SignalReference>,
}

impl View for SignalSeriesResult {
    type V = SeriesView;

    closed spec fn view(&self) -> SeriesView {
        SeriesView {
            output: self.output@,
            operation: self.operation,
            unit: self.unit@,
            samples: self.samples@,
            raw_lineage: references_view(self.raw_lineage@),
        }
    }
}

impl SignalSeriesResult {
    fn new(
        output: SignalReference,
        operation: SignalProcessingOperation,
        unit: SignalUnit,
        samples: Vec<i64>,
        raw_lineage: Vec<SignalReference>,
    ) -> (r: Self)
        ensures
            r@ == (SeriesView {
                output: output@,
                operation,
                unit: unit@,
                samples: samples@,
                raw_lineage: references_view(raw_lineage@),
            }),
    {
        SignalSeriesResult { output, operation, unit, samples, raw_lineage }
    }

    pub fn output(&self) -> (r: &SignalReference)
        ensures
            r@ == self@.output,
    {
        &self.output
    }

    pub fn operation(&self) -> (r: SignalProcessingOperation)
        ensures
            r == self@.operation,
    {
        self.operation
    }

    pub fn unit(&self) -> (r: &SignalUnit)
        ensures
            r@ == self@.unit,
    {
        &self.unit
    }

    pub fn samples(&self) -> (r: &[i64])
        ensures
            r@ == self@.samples,
    {
        self.samples.as_slice()
    }

    pub fn raw_lineage(&self) -> (r: &[SignalReference])
        ensures
            references_view(r@) == self@.raw_lineage,
    {
        self.raw_lineage.as_slice()
    }
}

#[derive(Clone, Copy, Debug, PartialEq, Eq, Structural)]
pub enum FrequencyTransformBackend {
    ReferenceDft,
    OptimizedFftCompatible,
}

impl FrequencyTransformBackend {
    pub fn as_str(self) -> (r: &'static str)
        ensures
            r@ == (match self {
                FrequencyTransformBackend::ReferenceDft => "reference_dft"@,
                FrequencyTransformBackend::OptimizedFftCompatible => "optimized_fft_compatible"@,
            }),
    {
        match self {
            FrequencyTransformBackend::ReferenceDft => "reference_dft",
            FrequencyTransformBackend::OptimizedFftCompatible => "optimized_fft_compatible",
        }
    }
}

#[derive(Clone, Copy, Debug, PartialEq, Eq, Structural)]
pub enum WindowFunction {
    Rectangular,
    Hann,
    Hamming,
    Blackman,
    FlatTop,
}

/// Each input once, in the order given.
fn raw_lineage(inputs: Vec<SignalReference>) -> (r: Vec<SignalReference>)
    ensures
        references_view(r@) == dedup_append(seq![], references_view(inputs@)),
{
    let mut lineage: Vec<SignalReference> = Vec::new();
    let mut k: usize = 0;
    let ghost items = references_view(inputs@);
    assert(references_view(lineage@) =~= Seq::<Seq<char>>::empty());
    while k < inputs.len()
        invariant
            k <= inputs@.len(),
            items == references_view(inputs@),
            references_view(lineage@) == dedup_append(seq![], items.take(k as int)),
        decreases inputs@.len() - k,
    {
        proof {
            assert(items.take(k + 1).drop_last() =~= items.take(k as int));
            assert(items.take(k + 1).last() == items[k as int]);
        }
        if !contains_reference(&lineage, &inputs[k]) {
            let ghost before = references_view(lineage@);
            lineage.push(inputs[k].duplicate());
            assert(references_view(lineage@) =~= before.push(items[k as int]));
        }
        k = k + 1;
    }
    assert(items.take(k as int) =~= items);
    lineage
}

/// The first channel of the dataset with the reference, or the unknown reference.
pub fn required_channel<'a>(dataset: &'a SignalDataset, reference: &SignalReference) -> (r: Result<
    &'a AcquiredSignalChannel,
    DomainError,
>)
    ensures
        ({
            let i = channel_index(dataset@.channels, reference@);
            match r {
                Ok(c) => i < dataset@.channels.len() && c@ == dataset@.channels[i],
                Err(e) => i >= dataset@.channels.len() && (e matches DomainError::UnknownSignalReference(t) && t@ == reference@),
            }
        }),
{
    match dataset.channel(reference) {
        Some(c) => Ok(c),
        None => Err(DomainError::UnknownSignalReference(reference.as_str().to_owned())),
    }
}

/// The channel with the reference, which must hold samples; what every transform of a
/// single channel checks first.
pub fn sampled_channel<'a>(dataset: &'a SignalDataset, reference: &SignalReference) -> (r: Result<
    &'a AcquiredSignalChannel,
    DomainError,
>)
    ensures
        ({
            let i = channel_index(dataset@.channels, reference@);
            if i >= dataset@.channels.len() {
                r matches Err(DomainError::UnknownSignalReference(t)) && t@ == reference@
            } else if dataset@.channels[i].samples.len() == 0 {
                r matches Err(DomainError::EmptySignalSamples(t)) && t@ == reference@
            } else {
                r matches Ok(c) && c@ == dataset@.channels[i]
            }
        }),
{
    let channel = match required_channel(dataset, reference) {
        Ok(c) => c,
        Err(e) => {
            return Err(e);
        },
    };
    if channel.samples().len() == 0 {
        return Err(DomainError::EmptySignalSamples(reference.as_str().to_owned()));
    }
    Ok(channel)
}

/// The channel found for a reference in a dataset, if any.
pub open spec fn channel_of(d: DatasetView, reference: Seq<char>) -> Option<ChannelView> {
    let i = channel_index(d.channels, reference);
    if i < d.channels.len() {
        Some(d.channels[i])
    } else {
        None
    }
}

/// Two channels sampled alike, whose sums of samples fit in 64 bits.
pub open spec fn sums_fit(l: ChannelView, r: ChannelView) -> bool {
    forall|i: int|
        0 <= i < l.samples.len() && i < r.samples.len() ==> i64::MIN <= #[trigger] l.samples[i]
            + r.samples[i] <= i64::MAX
}

/// Every `factor`-th sample, starting with the first.
pub open spec fn every_nth(s: Seq<i64>, factor: int) -> Seq<i64> {
    Seq::new(((s.len() + factor - 1) / factor) as nat, |i: int| s[i * factor])
}

/// Integer signal operations on acquired datasets.
pub struct SignalExecutionEngine;

impl SignalExecutionEngine {
    /// The sample-by-sample sum of two channels with the same rate and length.
    pub fn channel_sum(
        dataset: &SignalDataset,
        left: &SignalReference,
        right: &SignalReference,
        output: SignalReference,
        output_unit: SignalUnit,
    ) -> (r: Result<SignalSeriesResult, DomainError>)
        requires
            channel_of(dataset@, left@) is Some && channel_of(dataset@, right@) is Some ==> sums_fit(
                channel_of(dataset@, left@)->0,
                channel_of(dataset@, right@)->0,
            ),
        ensures
            match (channel_of(dataset@, left@), channel_of(dataset@, right@)) {
                (None, _) => r matches Err(DomainError::UnknownSignalReference(t)) && t@ == left@,
                (Some(_), None) => r matches Err(DomainError::UnknownSignalReference(t)) && t@
                    == right@,
                (Some(l), Some(rc)) => if l.sample_rate != rc.sample_rate {
                    r == Err::<SignalSeriesResult, DomainError>(
                        DomainError::SignalSampleRateMismatch {
                            left_hz: l.sample_rate,
                            right_hz: rc.sample_rate,
                        },
                    )
                } else if l.samples.len() != rc.samples.len() {
                    r == Err::<SignalSeriesResult, DomainError>(
                        DomainError::SignalSampleCountMismatch {
                            left_count: l.samples.len() as usize,
                            right_count: rc.samples.len() as usize,
                        },
                    )
                } else {
                    r matches Ok(s) && s@ == (SeriesView {
                        output: output@,
                        operation: SignalProcessingOperation::ChannelArithmetic,
                        unit: output_unit@,
                        samples: Seq::new(
                            l.samples.len(),
                            |i: int| (l.samples[i] + rc.samples[i]) as i64,
                        ),
                        raw_lineage: dedup_append(seq![], seq![left@, right@]),
                    })
                },
            },
    {
        let left_channel = match required_channel(dataset, left) {
            Ok(c) => c,
            Err(e) => {
                return Err(e);
            },
        };
        let right_channel = match required_channel(dataset, right) {
            Ok(c) => c,
            Err(e) => {
                return Err(e);
            },
        };
        if left_channel.sample_rate().value() != right_channel.sample_rate().value() {
            return Err(
                DomainError::SignalSampleRateMismatch {
                    left_hz: left_channel.sample_rate().value(),
                    right_hz: right_channel.sample_rate().value(),
                },
            );
        }
        let ls = left_channel.samples();
        let rs = right_channel.samples();
        if ls.len() != rs.len() {
            return Err(
                DomainError::SignalSampleCountMismatch {
                    left_count: ls.len(),
                    right_count: rs.len(),
                },
            );
        }
        let mut samples: Vec<i64> = Vec::new();
        let mut k: usize = 0;
        while k < ls.len()
            invariant
                k <= ls@.len(),
                ls@.len() == rs@.len(),
                sums_fit(left_channel@, right_channel@),
                ls@ == left_channel@.samples,
                rs@ == right_channel@.samples,
                samples@ == Seq::new(k as nat, |i: int| (ls@[i] + rs@[i]) as i64),
            decreases ls@.len() - k,
        {
            assert(i64::MIN <= ls@[k as int] + rs@[k as int] <= i64::MAX);
            samples.push(ls[k] + rs[k]);
            k = k + 1;
            assert(samples@ =~= Seq::new(k as nat, |i: int| (ls@[i] + rs@[i]) as i64));
        }
        let mut inputs: Vec<SignalReference> = Vec::new();
        inputs.push(left.duplicate());
        inputs.push(right.duplicate());
        assert(references_view(inputs@) =~= seq![left@, right@]);
        Ok(
            SignalSeriesResult::new(
                output,
                SignalProcessingOperation::ChannelArithmetic,
                output_unit,
                samples,
                raw_lineage(inputs),
            ),
        )
    }

    /// Keeps every `factor`-th sample, starting with the first.
    pub fn downsample(
        dataset: &SignalDataset,
        source: &SignalReference,
        output: SignalReference,
        factor: usize,
    ) -> (r: Result<SignalSeriesResult, DomainError>)
        ensures
            factor == 0 ==> r == Err::<SignalSeriesResult, DomainError>(
                DomainError::InvalidResamplingFactor(factor),
            ),
            factor > 0 ==> ({
                let i = channel_index(dataset@.channels, source@);
                if i >= dataset@.channels.len() {
                    r matches Err(DomainError::UnknownSignalReference(t)) && t@ == source@
                } else if dataset@.channels[i].samples.len() == 0 {
                    r matches Err(DomainError::EmptySignalSamples(t)) && t@ == source@
                } else {
                    r matches Ok(s) && s@ == (SeriesView {
                        output: output@,
                        operation: SignalProcessingOperation::Resampling,
                        unit: dataset@.channels[i].unit,
                        samples: every_nth(dataset@.channels[i].samples, factor as int),
                        raw_lineage: seq![source@],
                    })
                }
            }),
    {
        if factor == 0 {
            return Err(DomainError::InvalidResamplingFactor(factor));
        }
        let channel = match sampled_channel(dataset, source) {
            Ok(c) => c,
            Err(e) => {
                return Err(e);
            },
        };
        let src = channel.samples();
        let n = src.len();
        let total = (n - 1) / factor + 1;
        proof {
            assert((n + factor - 1) / (factor as int) == (n - 1) / (factor as int) + 1) by (nonlinear_arith)
                requires
                    factor > 0,
                    n >= 1,
            ;
        }
        let mut samples: Vec<i64> = Vec::new();
        let mut c: usize = 0;
        while c < total
            invariant
                factor > 0,
                n >= 1,
                n == src@.len(),
                total == (n - 1) / (factor as int) + 1,
                c <= total,
                samples@ == Seq::new(c as nat, |i: int| src@[i * factor]),
            decreases total - c,
        {
            proof {
                assert(c * factor <= n - 1) by (nonlinear_arith)
                    requires
                        factor > 0,
                        n >= 1,
                        c < (n - 1) / (factor as int) + 1,
                ;
            }
            samples.push(src[c * factor]);
            c = c + 1;
            assert(samples@ =~= Seq::new(c as nat, |i: int| src@[i * factor]));
        }
        let mut lineage: Vec<SignalReference> = Vec::new();
        lineage.push(source.duplicate());
        assert(references_view(lineage@) =~= seq![source@]);
        Ok(
            SignalSeriesResult::new(
                output,
                SignalProcessingOperation::Resampling,
                channel.unit().duplicate(),
                samples,
                lineage,
            ),
        )
    }
}

/// The magnitude of a sample.
pub open spec fn magnitude(x: i64) -> nat {
    if x < 0 {
        (-x) as nat
    } else {
        x as nat
    }
}

/// The largest magnitude among the samples, zero for none.
pub open spec fn peak_of(s: Seq<i64>) -> nat
    decreases s.len(),
{
    if s.len() == 0 {
        0
    } else {
        let rest = peak_of(s.drop_last());
        if magnitude(s.last()) > rest {
            magnitude(s.last())
        } else {
            rest
        }
    }
}

/// The largest magnitude among the samples of a channel, the integer part of a
/// peak measurement. No sample may be `i64::MIN`, whose magnitude has no `i64`.
pub fn peak_magnitude(samples: &[i64]) -> (r: u64)
    requires
        forall|i: int| 0 <= i < samples@.len() ==> samples@[i] != i64::MIN,
    ensures
        r == peak_of(samples@),
{
    let mut best: u64 = 0;
    let mut k: usize = 0;
    while k < samples.len()
        invariant
            k <= samples@.len(),
            forall|i: int| 0 <= i < samples@.len() ==> samples@[i] != i64::MIN,
            best == peak_of(samples@.take(k as int)),
        decreases samples@.len() - k,
    {
        proof {
            assert(samples@.take(k + 1).drop_last() =~= samples@.take(k as int));
        }
        let x = samples[k];
        let m: u64 = if x < 0 {
            (-x) as u64
        } else {
            x as u64
        };
        if m > best {
            best = m;
        }
        k = k + 1;
    }
    assert(samples@.take(k as int) =~= samples@);
    best
}

/// The lowest `bit_count` bits of `value` in reverse order: the lowest bit of
/// `value` becomes the highest of the result.
pub open spec fn reversed_bits(value: nat, bit_count: nat) -> nat
    decreases bit_count,
{
    if bit_count == 0 {
        0
    } else {
        (value % 2) * pow2((bit_count - 1) as nat) + reversed_bits(value / 2, (bit_count - 1) as nat)
    }
}

proof fn lemma_reverse_step(r: nat, b: nat, v: nat, m: nat)
    requires
        m > 0,
        b == v % 2,
    ensures
        (2 * r + b) * pow2((m - 1) as nat) + reversed_bits(v / 2, (m - 1) as nat) == r * pow2(m)
            + reversed_bits(v, m),
{
    let p = pow2((m - 1) as nat);
    lemma_pow2_unfold(m);
    assert((2 * r + b) * p == r * (2 * p) + b * p) by (nonlinear_arith);
}

/// The bit-reversal index of the radix-2 transform: the lowest `bit_count` bits of
/// `value`, reversed.
pub fn reverse_bits(value: usize, bit_count: u32) -> (r: usize)
    requires
        bit_count <= usize::BITS,
    ensures
        r == reversed_bits(value as nat, bit_count as nat),
{
    proof {
        lemma2_to64();
        lemma_pow2_pos(bit_count as nat);
    }
    let mut reversed: usize = 0;
    let mut rest: usize = value;
    let mut done: u32 = 0;
    while done < bit_count
        invariant
            done <= bit_count <= usize::BITS,
            pow2(32) == 0x100000000,
            pow2(64) == 0x10000000000000000,
            reversed < pow2(done as nat),
            reversed * pow2((bit_count - done) as nat) + reversed_bits(rest as nat, (bit_count - done) as nat)
                == reversed_bits(value as nat, bit_count as nat),
        decreases bit_count - done,
    {
        let b: usize = rest % 2;
        proof {
            lemma_reverse_step(reversed as nat, b as nat, rest as nat, (bit_count - done) as nat);
            lemma_pow2_unfold((done + 1) as nat);
            if done + 1 < usize::BITS {
                lemma_pow2_strictly_increases((done + 1) as nat, usize::BITS as nat);
            }
            assert(pow2(usize::BITS as nat) == usize::MAX + 1);
        }
        reversed = 2 * reversed + b;
        rest = rest / 2;
        done = done + 1;
    }
    proof {
        lemma2_to64();
        assert(done == bit_count);
        assert(reversed_bits(rest as nat, 0) == 0);
        assert(reversed * pow2(0) == reversed);
    }
    reversed
}

/// A simulated DAQ, used to exercise acquisition without hardware.
#[derive(Clone, Debug, PartialEq, Eq)]
pub struct SimulatedDaqSource {
    interface: DaqInterface,
    synchronization_method: SynchronizationMethod,
}

pub struct DaqSourceView {
    pub interface: DaqInterface,
    pub synchronization_method: SynchronizationMethod,
}

impl View for SimulatedDaqSource {
    type V = DaqSourceView;

    closed spec fn view(&self) -> DaqSourceView {
        DaqSourceView {
            interface: self.interface,
            synchronization_method: self.synchronization_method,
        }
    }
}

pub open spec fn inrush_voltage_samples() -> Seq<i64> {
    seq![0i64, 100i64, 260i64, 520i64, 260i64, 100i64, 0i64, -100i64]
}

pub open spec fn inrush_current_samples() -> Seq<i64> {
    seq![0i64, 20i64, 60i64, 180i64, 120i64, 40i64, 5i64, 0i64]
}

impl SimulatedDaqSource {
    /// A simulated openDAQ device sharing one sample clock.
    pub fn open_daq() -> (r: Self)
        ensures
            r@.interface == DaqInterface::OpenDaq,
            r@.synchronization_method == SynchronizationMethod::SharedSampleClock,
    {
        SimulatedDaqSource {
            interface: DaqInterface::OpenDaq,
            synchronization_method: SynchronizationMethod::SharedSampleClock,
        }
    }

    pub fn interface(&self) -> (r: DaqInterface)
        ensures
            r == self@.interface,
    {
        self.interface
    }

    pub fn synchronization_method(&self) -> (r: SynchronizationMethod)
        ensures
            r == self@.synchronization_method,
    {
        self.synchronization_method
    }

    /// A two-channel inrush capture at 10 kHz: voltage `voltage_l1` in mV and current
    /// `current_l1` in mA, eight samples each.
    pub fn acquire_inrush_fixture(&self) -> (r: Result<SignalDataset, DomainError>)
        ensures
            r matches Ok(d) && {
                &&& d@.daq_interface == self@.interface
                &&& d@.channels[0].reference == "voltage_l1"@
                &&& d@.channels[0].unit == "mV"@
                &&& d@.channels[1].reference == "current_l1"@
                &&& d@.channels[1].unit == "mA"@
                &&& d@.synchronization_method == self@.synchronization_method
                &&& d@.channels.len() == 2
                &&& d@.channels[0].source_kind == SignalSourceKind::AnalogVoltage
                &&& d@.channels[0].sample_rate == 10_000
                &&& d@.channels[0].samples == inrush_voltage_samples()
                &&& d@.channels[1].source_kind == SignalSourceKind::AnalogCurrent
                &&& d@.channels[1].sample_rate == 10_000
                &&& d@.channels[1].samples == inrush_current_samples()
            },
    {
        proof {
            reveal_strlit("voltage_l1");
            reveal_strlit("mV");
            reveal_strlit("current_l1");
            reveal_strlit("mA");
            lemma_trim_noop("voltage_l1"@);
            lemma_trim_noop("mV"@);
            lemma_trim_noop("current_l1"@);
            lemma_trim_noop("mA"@);
        }
        let sample_rate = match SampleRateHz::new(10_000) {
            Ok(v) => v,
            Err(e) => {
                return Err(e);
            },
        };
        let voltage_reference = match SignalReference::parse("voltage_l1") {
            Ok(v) => v,
            Err(e) => {
                return Err(e);
            },
        };
        let voltage_unit = match SignalUnit::parse("mV") {
            Ok(v) => v,
            Err(e) => {
                return Err(e);
            },
        };
        let voltage_samples: Vec<i64> = vec![0, 100, 260, 520, 260, 100, 0, -100];
        let voltage = AcquiredSignalChannel::new(
            voltage_reference,
            SignalSourceKind::AnalogVoltage,
            voltage_unit,
            sample_rate,
            voltage_samples,
        );
        let current_reference = match SignalReference::parse("current_l1") {
            Ok(v) => v,
            Err(e) => {
                return Err(e);
            },
        };
        let current_unit = match SignalUnit::parse("mA") {
            Ok(v) => v,
            Err(e) => {
                return Err(e);
            },
        };
        let current_samples: Vec<i64> = vec![0, 20, 60, 180, 120, 40, 5, 0];
        let current = AcquiredSignalChannel::new(
            current_reference,
            SignalSourceKind::AnalogCurrent,
            current_unit,
            sample_rate,
            current_samples,
        );
        assert(voltage@.samples =~= inrush_voltage_samples());
        assert(current@.samples =~= inrush_current_samples());
        let channels = vec![voltage, current];
        SignalDataset::new(self.interface, self.synchronization_method, channels)
    }
}

pub struct WorkflowView {
    pub axis: MeasurementAxis,
    pub preferred_daq_interface: DaqInterface,
    pub synchronization_required: bool,
    pub operations: Seq<SignalProcessingOperation>,
}

/// The operations of the default EMC time-domain workflow.
pub open spec fn cem_default_operations() -> Seq<SignalProcessingOperation> {
    seq![
        SignalProcessingOperation::TimeDomainFilter,
        SignalProcessingOperation::Fft,
        SignalProcessingOperation::WindowedFft,
        SignalProcessingOperation::ChannelArithmetic,
        SignalProcessingOperation::MathExpression,
        SignalProcessingOperation::HarmonicAnalysis,
        SignalProcessingOperation::InrushAnalysis,
        SignalProcessingOperation::EventCounting,
        SignalProcessingOperation::EdgeTiming,
        SignalProcessingOperation::CrossCorrelation,
    ]
}

/// What a time-domain measurement workflow expects of acquisition and processing.
#[derive(Clone, Debug, PartialEq, Eq)]
pub struct SignalWorkflowProfile {
    axis: MeasurementAxis,
    preferred_daq_interface: DaqInterface,
    synchronization_required: bool,
    operations: Vec<SignalProcessingOperation>,
}

impl View for SignalWorkflowProfile {
    type V = WorkflowView;

    closed spec fn view(&self) -> WorkflowView {
        WorkflowView {
            axis: self.axis,
            preferred_daq_interface: self.preferred_daq_interface,
            synchronization_required: self.synchronization_required,
            operations: self.operations@,
        }
    }
}

impl SignalWorkflowProfile {
    /// Mixed time and frequency analysis over a generic synchronized DAQ.
    pub fn cem_time_domain_default() -> (r: Self)
        ensures
            r@ == (WorkflowView {
                axis: MeasurementAxis::MixedTimeFrequency,
                preferred_daq_interface: DaqInterface::OpenDaq,
                synchronization_required: true,
                operations: cem_default_operations(),
            }),
    {
        let operations = vec![
            SignalProcessingOperation::TimeDomainFilter,
            SignalProcessingOperation::Fft,
            SignalProcessingOperation::WindowedFft,
            SignalProcessingOperation::ChannelArithmetic,
            SignalProcessingOperation::MathExpression,
            SignalProcessingOperation::HarmonicAnalysis,
            SignalProcessingOperation::InrushAnalysis,
            SignalProcessingOperation::EventCounting,
            SignalProcessingOperation::EdgeTiming,
            SignalProcessingOperation::CrossCorrelation,
        ];
        assert(operations@ =~= cem_default_operations());
        SignalWorkflowProfile {
            axis: MeasurementAxis::MixedTimeFrequency,
            preferred_daq_interface: DaqInterface::preferred_generic(),
            synchronization_required: true,
            operations,
        }
    }

    pub fn axis(&self) -> (r: MeasurementAxis)
        ensures
            r == self@.axis,
    {
        self.axis
    }

    pub fn preferred_daq_interface(&self) -> (r: DaqInterface)
        ensures
            r == self@.preferred_daq_interface,
    {
        self.preferred_daq_interface
    }

    pub fn synchronization_required(&self) -> (r: bool)
        ensures
            r == self@.synchronization_required,
    {
        self.synchronization_required
    }

    pub fn operations(&self) -> (r: &[SignalProcessingOperation])
        ensures
            r@ == self@.operations,
    {
        self.operations.as_slice()
    }
}

proof fn lemma_expand_yields_sources(g: GraphView, signal: Seq<char>, bound: nat)
    ensures
        forall|i: int|
            0 <= i < expand(g, signal, bound).len() ==> is_source(
                g,
                #[trigger] expand(g, signal, bound)[i],
            ),
    decreases bound, 0nat,
{
    if !is_source(g, signal) {
        let k = producer_index(g.nodes, signal);
        if 0 <= k < g.nodes.len() && k < bound {
            lemma_expand_all_yields_sources(g, g.nodes[k].inputs, k as nat);
            assert(expand(g, signal, bound) == expand_all(g, g.nodes[k].inputs, k as nat));
        } else {
            assert(expand(g, signal, bound) =~= Seq::<Seq<char>>::empty());
        }
    } else {
        assert(expand(g, signal, bound) =~= seq![signal]);
        assert(expand(g, signal, bound)[0] == signal);
    }
}

proof fn lemma_expand_all_yields_sources(g: GraphView, inputs: Seq<Seq<char>>, bound: nat)
    ensures
        forall|i: int|
            0 <= i < expand_all(g, inputs, bound).len() ==> is_source(
                g,
                #[trigger] expand_all(g, inputs, bound)[i],
            ),
    decreases bound, inputs.len() + 1,
{
    if inputs.len() > 0 {
        lemma_expand_all_yields_sources(g, inputs.drop_last(), bound);
        lemma_expand_yields_sources(g, inputs.last(), bound);
        let a = expand_all(g, inputs.drop_last(), bound);
        let b = expand(g, inputs.last(), bound);
        assert forall|i: int| 0 <= i < (a + b).len() implies is_source(g, #[trigger] (a + b)[i]) by {
            if i < a.len() {
                assert((a + b)[i] == a[i]);
            } else {
                assert((a + b)[i] == b[i - a.len()]);
            }
        }
    }
}

/// A lineage names only acquired source signals, each of them once.
pub proof fn lemma_lineage_is_sources_without_duplicates(g: GraphView, signal: Seq<char>)
    ensures
        no_duplicates(lineage_spec(g, signal)),
        forall|x: Seq<char>| #[trigger] lineage_spec(g, signal).contains(x) ==> is_source(g, x),
{
    let items = expand(g, signal, g.nodes.len());
    lemma_dedup_append_shape(seq![], items);
    lemma_expand_yields_sources(g, signal, g.nodes.len());
    assert forall|x: Seq<char>| #[trigger] lineage_spec(g, signal).contains(x) implies is_source(
        g,
        x,
    ) by {
        assert(!Seq::<Seq<char>>::empty().contains(x));
        let i = choose|i: int| 0 <= i < items.len() && items[i] == x;
        assert(is_source(g, items[i]));
    }
}

/// The lineage of an acquired signal is that signal alone.
pub proof fn lemma_source_lineage(g: GraphView, signal: Seq<char>)
    requires
        is_source(g, signal),
    ensures
        lineage_spec(g, signal) == seq![signal],
{
    assert(seq![signal].drop_last() =~= Seq::<Seq<char>>::empty());
    assert(dedup_append(seq![], Seq::<Seq<char>>::empty()) == Seq::<Seq<char>>::empty());
    assert(Seq::<Seq<char>>::empty().push(signal) =~= seq![signal]);
}

proof fn lemma_expand_all_covers(g: GraphView, inputs: Seq<Seq<char>>, bound: nat, i: int)
    requires
        0 <= i < inputs.len(),
    ensures
        forall|x: Seq<char>| #[trigger] expand(g, inputs[i], bound).contains(x) ==> expand_all(
            g,
            inputs,
            bound,
        ).contains(x),
    decreases inputs.len(),
{
    let a = expand_all(g, inputs.drop_last(), bound);
    let b = expand(g, inputs.last(), bound);
    if i < inputs.len() - 1 {
        lemma_expand_all_covers(g, inputs.drop_last(), bound, i);
        assert(inputs.drop_last()[i] == inputs[i]);
        assert forall|x: Seq<char>| #[trigger] expand(g, inputs[i], bound).contains(x) implies (a
            + b).contains(x) by {
            let j = choose|j: int| 0 <= j < a.len() && a[j] == x;
            assert((a + b)[j] == x);
        }
    } else {
        assert forall|x: Seq<char>| #[trigger] expand(g, inputs[i], bound).contains(x) implies (a
            + b).contains(x) by {
            let j = choose|j: int| 0 <= j < b.len() && b[j] == x;
            assert((a + b)[a.len() + j] == x);
        }
    }
}

/// In a well-formed graph, the lineage of a derived signal includes the lineage of each
/// input of the node that produces it.
pub proof fn lemma_lineage_covers_inputs(g: GraphView, signal: Seq<char>, i: int)
    requires
        graph_well_formed(g),
        !is_source(g, signal),
        producer_index(g.nodes, signal) < g.nodes.len(),
        0 <= i < g.nodes[producer_index(g.nodes, signal)].inputs.len(),
    ensures
        forall|x: Seq<char>|
            #[trigger] lineage_spec(g, g.nodes[producer_index(g.nodes, signal)].inputs[i]).contains(
                x,
            ) ==> lineage_spec(g, signal).contains(x),
{
    lemma_producer_index(g.nodes, signal);
    let k = producer_index(g.nodes, signal);
    let t = g.nodes[k].inputs[i];
    let n = g.nodes.len();
    // `t` is a source or is produced before `k`, so following it up to `k` or up to the
    // end of the graph reaches the same sources.
    assert(expand(g, t, k as nat) == expand(g, t, n));
    lemma_expand_all_covers(g, g.nodes[k].inputs, k as nat, i);
    lemma_dedup_append_shape(seq![], expand(g, t, n));
    lemma_dedup_append_shape(seq![], expand(g, signal, n));
    assert forall|x: Seq<char>| #[trigger] lineage_spec(g, t).contains(x) implies lineage_spec(
        g,
        signal,
    ).contains(x) by {
        assert(!Seq::<Seq<char>>::empty().contains(x));
    }
}

proof fn lemma_producer_index_push(nodes: Seq<NodeView>, node: NodeView, signal: Seq<char>)
    requires
        producer_index(nodes, signal) < nodes.len(),
    ensures
        producer_index(nodes.push(node), signal) == producer_index(nodes, signal),
{
    lemma_producer_index(nodes, signal);
    let k = producer_index(nodes, signal);
    assert forall|j: int| 0 <= j < k implies (#[trigger] nodes.push(node)[j]).output != signal by {
        assert(nodes.push(node)[j] == nodes[j]);
    }
    assert(nodes.push(node)[k] == nodes[k]);
    lemma_producer_index_is(nodes.push(node), signal, k);
}

proof fn lemma_first_unknown_none(g: GraphView, inputs: Seq<Seq<char>>)
    requires
        first_unknown_input(g, inputs) >= inputs.len(),
    ensures
        forall|j: int| 0 <= j < inputs.len() ==> knows_signal_spec(g, #[trigger] inputs[j]),
    decreases inputs.len(),
{
    if inputs.len() > 0 {
        lemma_first_unknown_none(g, inputs.drop_first());
        assert forall|j: int| 0 <= j < inputs.len() implies knows_signal_spec(
            g,
            #[trigger] inputs[j],
        ) by {
            if j > 0 {
                assert(inputs[j] == inputs.drop_first()[j - 1]);
            }
        }
    }
}

/// Adding a node whose inputs are all known keeps every input produced upstream.
pub proof fn lemma_add_node_keeps_graph_well_formed(g: GraphView, node: NodeView)
    requires
        graph_well_formed(g),
        first_unknown_input(g, node.inputs) >= node.inputs.len(),
    ensures
        graph_well_formed(GraphView { nodes: g.nodes.push(node), ..g }),
{
    let post = GraphView { nodes: g.nodes.push(node), ..g };
    lemma_first_unknown_none(g, node.inputs);
    assert forall|k: int, i: int|
        0 <= k < post.nodes.len() && 0 <= i < post.nodes[k].inputs.len() implies is_source(
        post,
        #[trigger] post.nodes[k].inputs[i],
    ) || producer_index(post.nodes, post.nodes[k].inputs[i]) < k by {
        let t = post.nodes[k].inputs[i];
        if k < g.nodes.len() {
            assert(post.nodes[k] == g.nodes[k]);
            if !is_source(g, t) {
                lemma_producer_index_push(g.nodes, node, t);
            }
        } else {
            assert(post.nodes[k] == node);
            assert(knows_signal_spec(g, node.inputs[i]));
            if !is_source(g, t) {
                lemma_producer_index_push(g.nodes, node, t);
            }
        }
    }
}

} // verus!
