use data_storage::engine::Engine;
use data_storage::errors::DataError;
use data_storage::events::AccessEvent;
use data_storage::events::Event;
use data_storage::events::NotificationEvent;
use data_storage::records::CanonicalPayload;
use data_storage::records::ForwarderReport;
use data_storage::records::Profile;
use data_storage::records::Record;

fn payload(key: &[u8], value: &[u8]) -> CanonicalPayload {
    CanonicalPayload { key: key.to_vec(), value: value.to_vec() }
}

fn fresh_engine(profile: Profile) -> Engine {
    Engine::new(profile, b"data_account".to_vec())
}

#[test]
fn scenario_initialize_and_read() {
    let mut engine = fresh_engine(Profile::Simple);
    let rec = engine
        .initialize_data_account(b"alice", payload(b"k1", b"v1"))
        .unwrap();
    let expected = Record {
        owner: b"alice".to_vec(),
        key: b"k1".to_vec(),
        value: b"v1".to_vec(),
    };
    assert_eq!(rec, expected);
    let addr = engine.address_of(b"alice");
    assert_eq!(engine.read_record(&addr).unwrap(), expected);
    assert_eq!(engine.record_count(), 1);
    assert_eq!(engine.event_log().len(), 0);
}

#[test]
fn scenario_update_emits_event() {
    let mut engine = fresh_engine(Profile::Simple);
    engine
        .initialize_data_account(b"alice", payload(b"k1", b"v1"))
        .unwrap();
    let addr = engine.address_of(b"alice");
    let rec = engine
        .update_user_data(&addr, b"alice", payload(b"k2", b"v2"))
        .unwrap();
    assert_eq!(
        rec,
        Record { owner: b"alice".to_vec(), key: b"k2".to_vec(), value: b"v2".to_vec() }
    );
    assert_eq!(
        engine.read_record(&addr).unwrap(),
        Record { owner: b"alice".to_vec(), key: b"k2".to_vec(), value: b"v2".to_vec() }
    );
    let log = engine.event_log();
    assert_eq!(log.len(), 1);
    assert_eq!(
        log[0],
        Event::Notification(NotificationEvent {
            key: b"k2".to_vec(),
            payload: payload(b"k2", b"v2"),
            sender: b"alice".to_vec(),
            metadata: vec![1, 2, 3],
            metadata_groups: Vec::new(),
        })
    );
}

#[test]
fn scenario_oversized_value_rejected() {
    let mut engine = fresh_engine(Profile::Simple);
    engine
        .initialize_data_account(b"alice", payload(b"k1", b"v1"))
        .unwrap();
    let addr = engine.address_of(b"alice");
    engine
        .update_user_data(&addr, b"alice", payload(b"k2", b"v2"))
        .unwrap();
    let big = vec![0u8; 300];
    let err = engine
        .update_user_data(&addr, b"alice", payload(b"k3", &big))
        .unwrap_err();
    assert_eq!(err, DataError::DataTooLong);
    assert_eq!(
        engine.read_record(&addr).unwrap(),
        Record { owner: b"alice".to_vec(), key: b"k2".to_vec(), value: b"v2".to_vec() }
    );
    assert_eq!(engine.event_log().len(), 1);
}

#[test]
fn extended_profile_accepts_larger_values() {
    let mut engine = fresh_engine(Profile::Extended);
    engine
        .initialize_data_account(b"alice", payload(b"k1", b"v1"))
        .unwrap();
    let addr = engine.address_of(b"alice");
    let value = vec![7u8; 200];
    let rec = engine
        .update_user_data(&addr, b"alice", payload(b"k2", &value))
        .unwrap();
    assert_eq!(rec.value, value);
    let too_big = vec![7u8; 300];
    assert_eq!(
        engine
            .update_user_data(&addr, b"alice", payload(b"k3", &too_big))
            .unwrap_err(),
        DataError::DataTooLong
    );
}

#[test]
fn update_missing_record_not_found() {
    let mut engine = fresh_engine(Profile::Simple);
    let addr = engine.address_of(b"alice");
    assert_eq!(
        engine
            .update_user_data(&addr, b"alice", payload(b"k", b"v"))
            .unwrap_err(),
        DataError::DataNotFound
    );
    assert_eq!(engine.read_record(&addr).unwrap_err(), DataError::DataNotFound);
    assert_eq!(engine.event_log().len(), 0);
}

#[test]
fn initialize_twice_already_exists() {
    let mut engine = fresh_engine(Profile::Simple);
    engine
        .initialize_data_account(b"alice", payload(b"k1", b"v1"))
        .unwrap();
    assert_eq!(
        engine
            .initialize_data_account(b"alice", payload(b"other", b"other"))
            .unwrap_err(),
        DataError::AlreadyExists
    );
    let addr = engine.address_of(b"alice");
    assert_eq!(
        engine.read_record(&addr).unwrap(),
        Record { owner: b"alice".to_vec(), key: b"k1".to_vec(), value: b"v1".to_vec() }
    );
    assert_eq!(engine.record_count(), 1);
}

#[test]
fn update_wrong_caller_unauthorized() {
    let mut engine = fresh_engine(Profile::Simple);
    engine
        .initialize_data_account(b"alice", payload(b"k1", b"v1"))
        .unwrap();
    let addr = engine.address_of(b"alice");
    assert_eq!(
        engine
            .update_user_data(&addr, b"bob", payload(b"k2", b"v2"))
            .unwrap_err(),
        DataError::Unauthorized
    );
    assert_eq!(
        engine.read_record(&addr).unwrap(),
        Record { owner: b"alice".to_vec(), key: b"k1".to_vec(), value: b"v1".to_vec() }
    );
    assert_eq!(engine.event_log().len(), 0);
}

#[test]
fn scenario_malformed_report() {
    let mut engine = fresh_engine(Profile::Simple);
    engine
        .initialize_data_account(b"alice", payload(b"k1", b"v1"))
        .unwrap();
    let addr = engine.address_of(b"alice");
    let err = engine
        .on_report(&addr, b"alice", b"", &[1u8, 2u8, 3u8])
        .unwrap_err();
    assert_eq!(err, DataError::DecodeError);
    assert_eq!(
        engine.read_record(&addr).unwrap(),
        Record { owner: b"alice".to_vec(), key: b"k1".to_vec(), value: b"v1".to_vec() }
    );
    assert_eq!(engine.event_log().len(), 0);
}

#[test]
fn report_equals_direct_update() {
    let mut direct = fresh_engine(Profile::Simple);
    let mut via_report = fresh_engine(Profile::Simple);
    direct
        .initialize_data_account(b"alice", payload(b"k1", b"v1"))
        .unwrap();
    via_report
        .initialize_data_account(b"alice", payload(b"k1", b"v1"))
        .unwrap();
    let addr = direct.address_of(b"alice");
    let p = payload(b"k2", b"v2");
    let encoded = data_storage::codec::encode(&p);
    let r1 = direct.update_user_data(&addr, b"alice", p).unwrap();
    let r2 = via_report
        .on_report(&addr, b"alice", b"meta", &encoded)
        .unwrap();
    assert_eq!(r1, r2);
    assert_eq!(
        direct.read_record(&addr).unwrap(),
        via_report.read_record(&addr).unwrap()
    );
    assert_eq!(direct.event_log(), via_report.event_log());
}

#[test]
fn update_key_value_data_matches_user_data() {
    let mut a = fresh_engine(Profile::Simple);
    let mut b = fresh_engine(Profile::Simple);
    a.initialize_data_account(b"alice", payload(b"k1", b"v1")).unwrap();
    b.initialize_data_account(b"alice", payload(b"k1", b"v1")).unwrap();
    let addr = a.address_of(b"alice");
    let r1 = a
        .update_key_value_data(&addr, b"alice", b"k2".to_vec(), b"v2".to_vec())
        .unwrap();
    let r2 = b.update_user_data(&addr, b"alice", payload(b"k2", b"v2")).unwrap();
    assert_eq!(r1, r2);
    assert_eq!(a.event_log(), b.event_log());
}

#[test]
fn log_access_appends_access_event() {
    let mut engine = fresh_engine(Profile::Simple);
    engine.log_access(b"carol", b"hello");
    let log = engine.event_log();
    assert_eq!(log.len(), 1);
    assert_eq!(
        log[0],
        Event::Access(AccessEvent { caller: b"carol".to_vec(), message: b"hello".to_vec() })
    );
    assert_eq!(engine.record_count(), 0);
}

#[test]
fn handle_forwarder_report_applies_no_change() {
    let mut engine = fresh_engine(Profile::Simple);
    engine
        .initialize_data_account(b"alice", payload(b"k1", b"v1"))
        .unwrap();
    let report = ForwarderReport { account_hash: vec![1, 2], payload: vec![3, 4] };
    assert!(engine.handle_forwarder_report(&report).is_ok());
    assert_eq!(engine.record_count(), 1);
    assert_eq!(engine.event_log().len(), 0);
}

#[test]
fn two_owners_two_records() {
    let mut engine = fresh_engine(Profile::Simple);
    engine
        .initialize_data_account(b"alice", payload(b"ka", b"va"))
        .unwrap();
    engine
        .initialize_data_account(b"bob", payload(b"kb", b"vb"))
        .unwrap();
    assert_eq!(engine.record_count(), 2);
    let addr_a = engine.address_of(b"alice");
    let addr_b = engine.address_of(b"bob");
    assert_ne!(addr_a, addr_b);
    assert_eq!(
        engine.read_record(&addr_a).unwrap(),
        Record { owner: b"alice".to_vec(), key: b"ka".to_vec(), value: b"va".to_vec() }
    );
    assert_eq!(
        engine.read_record(&addr_b).unwrap(),
        Record { owner: b"bob".to_vec(), key: b"kb".to_vec(), value: b"vb".to_vec() }
    );
}
