use mwha::config::AdjustBaudConfig;
use mwha::config::BaudConfig;
use mwha::serial::BaudDetector;
use mwha::serial::ProbeDecision;
use mwha::serial::ProbeOutcome;
use mwha::serial::adjust_baud_plan;
use mwha::serial::baud_probe_data;
use mwha::serial::baud_rates;
use mwha::serial::format_baud_command;
use mwha::serial::initial_baud;
use mwha::serial::max_baud_rate;
use mwha::serial::probe_decision;

#[test]
fn candidate_rates_in_order() {
    assert_eq!(baud_rates(), vec![9600, 19200, 38400, 57600, 115200, 230400]);
    assert_eq!(max_baud_rate(), 230400);
    assert_eq!(baud_probe_data(), b"baudrate detect\r".to_vec());
}

#[test]
fn initial_rate_from_config() {
    assert_eq!(initial_baud(&BaudConfig::Rate(19200)), 19200);
    assert_eq!(initial_baud(&BaudConfig::Auto), 9600);
}

#[test]
fn probe_outcomes_decide_the_next_step() {
    assert_eq!(
        probe_decision(9600, &ProbeOutcome::Echoed { matched: true }),
        ProbeDecision::Confirmed(9600)
    );
    assert_eq!(
        probe_decision(9600, &ProbeOutcome::Echoed { matched: false }),
        ProbeDecision::TryNext
    );
    // a timeout means a wrong rate, not a fault
    assert_eq!(probe_decision(9600, &ProbeOutcome::TimedOut), ProbeDecision::TryNext);
    assert_eq!(probe_decision(9600, &ProbeOutcome::Failed), ProbeDecision::Fatal);
}

#[test]
fn detector_walks_every_candidate_once() {
    let mut detector = BaudDetector::new();
    let mut seen: Vec<u32> = Vec::new();
    while let Some(rate) = detector.next_rate() {
        seen.push(rate);
    }
    assert_eq!(seen, baud_rates());
    assert_eq!(detector.next_rate(), None);
}

#[test]
fn adjustment_plans() {
    // off: never adjust
    assert_eq!(adjust_baud_plan(&AdjustBaudConfig::Off, 9600, true), None);
    // already at the target: nothing to do
    assert_eq!(adjust_baud_plan(&AdjustBaudConfig::Rate(9600), 9600, true), None);
    // adjust and remember the rate to restore
    assert_eq!(
        adjust_baud_plan(&AdjustBaudConfig::Rate(115200), 9600, true),
        Some((115200, Some(9600)))
    );
    // adjust without restoring on shutdown
    assert_eq!(
        adjust_baud_plan(&AdjustBaudConfig::Rate(115200), 9600, false),
        Some((115200, None))
    );
    // max picks the fastest supported rate
    assert_eq!(
        adjust_baud_plan(&AdjustBaudConfig::Max, 9600, true),
        Some((230400, Some(9600)))
    );
    assert_eq!(adjust_baud_plan(&AdjustBaudConfig::Max, 230400, true), None);
}

#[test]
fn rate_change_command() {
    assert_eq!(format_baud_command(9600), b"<9600\r".to_vec());
    assert_eq!(format_baud_command(230400), b"<230400\r".to_vec());
}
