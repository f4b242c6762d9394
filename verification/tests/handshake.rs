use graph_client::client_datastore::{
    ClientDatastore, ClientTransaction, Connector, Phase, ProbeOutcome, Step, MAX_ATTEMPTS,
};

#[test]
fn datastore_hands_its_port_to_the_transaction() {
    let datastore = ClientDatastore::new(8000);
    assert_eq!(datastore.port(), 8000);
    let transaction = datastore.transaction().unwrap();
    assert_eq!(transaction.port(), 8000);
    assert_eq!(ClientTransaction::new(27615).port(), 27615);
}

#[test]
fn ready_on_the_third_attempt_runs_after_three() {
    let mut connector = Connector::new();
    assert_eq!(connector.record(ProbeOutcome::ConnectFailed), Step::Retry { delay_secs: 1 });
    assert_eq!(connector.record(ProbeOutcome::NotReady), Step::Retry { delay_secs: 1 });
    assert_eq!(connector.record(ProbeOutcome::Ready), Step::Run);
    assert_eq!(connector.attempts(), 3);
    assert_eq!(connector.phase(), Phase::Connected);
    assert_eq!(connector.record(ProbeOutcome::ConnectFailed), Step::Run);
    assert_eq!(connector.attempts(), 3);
}

#[test]
fn five_failures_exhaust_the_handshake() {
    let mut connector = Connector::new();
    for _ in 0..4 {
        assert_eq!(connector.record(ProbeOutcome::ProbeFailed), Step::Retry { delay_secs: 1 });
    }
    assert_eq!(connector.record(ProbeOutcome::ConnectFailed), Step::Abort { delay_secs: 1 });
    assert_eq!(connector.attempts(), MAX_ATTEMPTS);
    assert_eq!(connector.phase(), Phase::Exhausted);
    assert_eq!(connector.record(ProbeOutcome::Ready), Step::Abort { delay_secs: 1 });
    assert_eq!(connector.attempts(), 5);
}
