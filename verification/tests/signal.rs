use emc_locus::signal::{
    peak_magnitude, reverse_bits,
    SignalExecutionEngine, SignalProcessingGraph, SignalProcessingNode,
    SignalProcessingOperation, SignalReference, SignalUnit, SimulatedDaqSource, SampleRateHz,
    DaqInterface, SynchronizationMethod,
};
use emc_locus::DomainError;

fn reference(value: &str) -> SignalReference {
    SignalReference::parse(value).unwrap()
}

#[test]
fn references_and_rates_are_checked() {
    assert_eq!(reference(" voltage_l1 ").as_str(), "voltage_l1");
    assert_eq!(SignalReference::parse("  "), Err(DomainError::EmptySignalReference));
    assert_eq!(
        SignalReference::parse("volt age"),
        Err(DomainError::InvalidSignalReference("volt age".to_owned()))
    );
    assert_eq!(SignalUnit::parse(" "), Err(DomainError::EmptySignalUnit));
    assert_eq!(SampleRateHz::new(0), Err(DomainError::InvalidSampleRateHz(0)));
    assert_eq!(SampleRateHz::new(10_000).unwrap().value(), 10_000);
}

#[test]
fn simulated_inrush_fixture_has_two_synchronised_channels() {
    let source = SimulatedDaqSource::open_daq();
    assert_eq!(source.interface(), DaqInterface::OpenDaq);
    assert_eq!(source.synchronization_method(), SynchronizationMethod::SharedSampleClock);
    let dataset = source.acquire_inrush_fixture().unwrap();
    assert_eq!(dataset.channels().len(), 2);
    let voltage = dataset.channel(&reference("voltage_l1")).unwrap();
    assert_eq!(voltage.samples(), &[0, 100, 260, 520, 260, 100, 0, -100]);
    assert_eq!(voltage.unit().as_str(), "mV");
    assert_eq!(voltage.sample_rate().value(), 10_000);
    assert!(dataset.channel(&reference("missing")).is_none());
}

#[test]
fn channel_sum_adds_sample_by_sample_and_records_both_inputs() {
    let dataset = SimulatedDaqSource::open_daq().acquire_inrush_fixture().unwrap();
    let sum = SignalExecutionEngine::channel_sum(
        &dataset,
        &reference("voltage_l1"),
        &reference("current_l1"),
        reference("sum"),
        SignalUnit::parse("a.u.").unwrap(),
    )
    .unwrap();
    assert_eq!(sum.samples(), &[0, 120, 320, 700, 380, 140, 5, -100]);
    assert_eq!(sum.operation(), SignalProcessingOperation::ChannelArithmetic);
    let lineage: Vec<&str> = sum.raw_lineage().iter().map(|r| r.as_str()).collect();
    assert_eq!(lineage, vec!["voltage_l1", "current_l1"]);

    assert_eq!(
        SignalExecutionEngine::channel_sum(
            &dataset,
            &reference("voltage_l1"),
            &reference("ghost"),
            reference("sum"),
            SignalUnit::parse("a.u.").unwrap(),
        ),
        Err(DomainError::UnknownSignalReference("ghost".to_owned()))
    );
}

#[test]
fn downsampling_keeps_every_nth_sample_from_the_first() {
    let dataset = SimulatedDaqSource::open_daq().acquire_inrush_fixture().unwrap();
    let every_third = SignalExecutionEngine::downsample(
        &dataset,
        &reference("current_l1"),
        reference("current_decimated"),
        3,
    )
    .unwrap();
    assert_eq!(every_third.samples(), &[0, 180, 5]);
    assert_eq!(every_third.unit().as_str(), "mA");
    assert_eq!(every_third.operation(), SignalProcessingOperation::Resampling);
    assert_eq!(
        SignalExecutionEngine::downsample(&dataset, &reference("current_l1"), reference("x"), 0),
        Err(DomainError::InvalidResamplingFactor(0))
    );
}

#[test]
fn lineage_follows_nodes_back_to_raw_sources_once_each() {
    let dataset = SimulatedDaqSource::open_daq().acquire_inrush_fixture().unwrap();
    let mut graph = SignalProcessingGraph::from_dataset(&dataset);
    let power = SignalProcessingNode::new(
        reference("power-node"),
        SignalProcessingOperation::ChannelArithmetic,
        vec![reference("voltage_l1"), reference("current_l1")],
        reference("power"),
    )
    .unwrap();
    graph.add_node(power).unwrap();
    let energy = SignalProcessingNode::new(
        reference("energy-node"),
        SignalProcessingOperation::MathExpression,
        vec![reference("power"), reference("voltage_l1")],
        reference("energy"),
    )
    .unwrap();
    graph.add_node(energy).unwrap();

    let lineage: Vec<String> = graph
        .raw_lineage_for(&reference("energy"))
        .unwrap()
        .into_iter()
        .map(|r| r.as_str().to_owned())
        .collect();
    assert_eq!(lineage, vec!["voltage_l1", "current_l1"]);
    assert!(graph.contains_operation(SignalProcessingOperation::MathExpression));
    assert!(!graph.contains_operation(SignalProcessingOperation::Fft));
    assert_eq!(
        graph.raw_lineage_for(&reference("unknown")),
        Err(DomainError::UnknownSignalReference("unknown".to_owned()))
    );
}

#[test]
fn nodes_need_inputs_known_signals_and_a_fresh_identifier() {
    let dataset = SimulatedDaqSource::open_daq().acquire_inrush_fixture().unwrap();
    let mut graph = SignalProcessingGraph::from_dataset(&dataset);
    assert_eq!(
        SignalProcessingNode::new(
            reference("n"),
            SignalProcessingOperation::Fft,
            Vec::new(),
            reference("out"),
        ),
        Err(DomainError::EmptyProcessingNodeInputs)
    );
    let orphan = SignalProcessingNode::new(
        reference("n"),
        SignalProcessingOperation::Fft,
        vec![reference("nowhere")],
        reference("out"),
    )
    .unwrap();
    assert_eq!(
        graph.add_node(orphan),
        Err(DomainError::UnknownSignalReference("nowhere".to_owned()))
    );
    assert!(!graph.has_nodes());
    let fft = SignalProcessingNode::new(
        reference("n"),
        SignalProcessingOperation::Fft,
        vec![reference("voltage_l1")],
        reference("spectrum"),
    )
    .unwrap();
    graph.add_node(fft.clone()).unwrap();
    assert_eq!(
        graph.add_node(fft),
        Err(DomainError::DuplicateProcessingNode("n".to_owned()))
    );
    assert_eq!(graph.nodes().len(), 1);
}

#[test]
fn peak_magnitude_takes_the_largest_absolute_sample() {
    assert_eq!(peak_magnitude(&[3, -7, 5]), 7);
    assert_eq!(peak_magnitude(&[-2, -2]), 2);
    assert_eq!(peak_magnitude(&[]), 0);
    assert_eq!(peak_magnitude(&[i64::MAX, -1]), 9_223_372_036_854_775_807);
}

#[test]
fn reverse_bits_mirrors_the_low_bits() {
    assert_eq!(reverse_bits(1, 3), 4);
    assert_eq!(reverse_bits(6, 3), 3);
    assert_eq!(reverse_bits(0b1011, 4), 0b1101);
    assert_eq!(reverse_bits(5, 0), 0);
    assert_eq!(reverse_bits(0b1100, 2), 0);
    let order: Vec<usize> = (0..8).map(|i| reverse_bits(i, 3)).collect();
    assert_eq!(order, vec![0, 4, 2, 6, 1, 5, 3, 7]);
}
