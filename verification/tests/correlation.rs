use http::uri::Scheme;
use http::Version;
use simple_server_analytics::correlation::{ConnId, ConnectionInfo, Correlation, Step};
use simple_server_analytics::id::{Id, MARK_BITS, RANDOM_MARK};
use simple_server_analytics::store::StorageError;
use simple_server_analytics::version::HttpVersion;

#[test]
fn a_cycle_starts_idle() {
    assert_eq!(Correlation::new(), Correlation::Idle);
}

#[test]
fn a_cycle_runs_through_its_five_states() {
    let state = Correlation::new();
    let state = state.accept();
    assert_eq!(state, Correlation::Accepted);
    let state = state.report(Ok(Id(7)));
    assert_eq!(state, Correlation::Correlated { conn_id: Some(Id(7)) });
    let state = state.hand_over();
    assert_eq!(state, Correlation::Serving { conn_id: Some(Id(7)) });
    let state = state.close();
    assert_eq!(state, Correlation::Closed);
}

#[test]
fn a_connection_whose_record_failed_is_served_without_identity() {
    let state = Correlation::new().accept().report(Err(StorageError::Io));
    assert_eq!(state, Correlation::Correlated { conn_id: None });
    let state = state.hand_over();
    assert_eq!(state, Correlation::Serving { conn_id: None });
    assert_eq!(state.attach(), None);
    assert_eq!(state.close(), Correlation::Closed);
}

#[test]
fn the_identity_is_attached_to_every_request_while_serving() {
    let state = Correlation::new().accept().report(Ok(Id(7))).hand_over();
    assert_eq!(state.attach(), Some(ConnId(Id(7))));
    assert_eq!(state.attach(), Some(ConnId(Id(7))));
    assert_eq!(state.attach(), Some(ConnId(Id(7))));
}

#[test]
fn nothing_is_attached_outside_service() {
    assert_eq!(Correlation::Idle.attach(), None);
    assert_eq!(Correlation::Accepted.attach(), None);
    assert_eq!(Correlation::Correlated { conn_id: Some(Id(7)) }.attach(), None);
    assert_eq!(Correlation::Closed.attach(), None);
}

#[test]
fn a_step_out_of_turn_changes_nothing() {
    let all: Vec<Correlation> = vec![
        Correlation::Idle,
        Correlation::Accepted,
        Correlation::Correlated { conn_id: Some(Id(7)) },
        Correlation::Correlated { conn_id: None },
        Correlation::Serving { conn_id: Some(Id(7)) },
        Correlation::Serving { conn_id: None },
        Correlation::Closed,
    ];
    for state in all {
        if state != Correlation::Idle {
            assert_eq!(state.accept(), state);
        }
        if state != Correlation::Accepted {
            assert_eq!(state.report(Ok(Id(1))), state);
            assert_eq!(state.report(Err(StorageError::Other)), state);
        }
        if !matches!(state, Correlation::Correlated { .. }) {
            assert_eq!(state.hand_over(), state);
        }
        if !matches!(state, Correlation::Serving { .. }) {
            assert_eq!(state.close(), state);
        }
    }
}

#[test]
fn a_connection_kept_in_memory_has_a_random_identity() {
    let info = ConnectionInfo::mint("127.0.0.1:8080", "10.0.0.5:51515", &Scheme::HTTPS, Version::HTTP_3);
    assert_eq!(info.id.0 & MARK_BITS, RANDOM_MARK);
    assert_eq!(info.local_addr, "127.0.0.1:8080");
    assert_eq!(info.remote_addr, "10.0.0.5:51515");
    assert_eq!(info.http_scheme, "https");
    assert_eq!(info.http_version, HttpVersion::Http3);
    assert_eq!(info.attach(), ConnId(info.id));
}

#[test]
fn a_step_is_the_transition_it_names() {
    let all: Vec<Correlation> = vec![
        Correlation::Idle,
        Correlation::Accepted,
        Correlation::Correlated { conn_id: Some(Id(7)) },
        Correlation::Serving { conn_id: None },
        Correlation::Closed,
    ];
    for state in all {
        assert_eq!(state.step(Step::Accept), state.accept());
        assert_eq!(state.step(Step::Report(Ok(Id(3)))), state.report(Ok(Id(3))));
        assert_eq!(
            state.step(Step::Report(Err(StorageError::Io))),
            state.report(Err(StorageError::Io))
        );
        assert_eq!(state.step(Step::HandOver), state.hand_over());
        assert_eq!(state.step(Step::Close), state.close());
    }
}

#[test]
fn an_identity_is_only_ever_one_that_the_store_gave() {
    let steps: Vec<Step> = vec![
        Step::HandOver,
        Step::Report(Ok(Id(1))),
        Step::Accept,
        Step::Accept,
        Step::Report(Ok(Id(2))),
        Step::Report(Ok(Id(3))),
        Step::HandOver,
        Step::Report(Err(StorageError::Io)),
    ];
    let mut state = Correlation::new();
    for step in steps {
        state = state.step(step);
    }
    assert_eq!(state, Correlation::Serving { conn_id: Some(Id(2)) });
    assert_eq!(state.attach(), Some(ConnId(Id(2))));
}
