use std::sync::Arc;

use salix::envelope::{Envelope, MessageRequest, RegistrationRequest};
use salix::registry::{AgentRecord, DispatchError, Registry};

const ID: &str = "67e55044-10b1-426f-9247-bb680e5fe0c8";

fn registration(id: &str, hostname: &str) -> Envelope {
    Envelope::Registration(RegistrationRequest {
        agent_id: id.as_bytes().to_vec(),
        hostname: hostname.as_bytes().to_vec(),
        version: b"0.1.0".to_vec(),
        timestamp: 0,
    })
}

#[test]
fn registration_records_agent() {
    let mut reg = Registry::new();
    assert_eq!(reg.dispatch(registration(ID, "alpha")), Ok(None));
    assert_eq!(reg.len(), 1);
    let rec = reg.get(0x67e5504410b1426f9247bb680e5fe0c8).unwrap();
    assert_eq!(rec.hostname, b"alpha".to_vec());
    assert_eq!(rec.version, b"0.1.0".to_vec());
}

#[test]
fn second_registration_overwrites_first() {
    let mut reg = Registry::new();
    assert_eq!(reg.dispatch(registration(ID, "alpha")), Ok(None));
    assert_eq!(reg.dispatch(registration(ID, "beta")), Ok(None));
    assert_eq!(reg.len(), 1);
    let rec = reg.get(0x67e5504410b1426f9247bb680e5fe0c8).unwrap();
    assert_eq!(rec.hostname, b"beta".to_vec());
}

#[test]
fn empty_agent_id_is_invalid_argument() {
    let mut reg = Registry::new();
    assert_eq!(reg.dispatch(registration("", "alpha")), Err(DispatchError::InvalidArgument));
    assert_eq!(reg.len(), 0);
}

#[test]
fn malformed_agent_id_is_invalid_argument() {
    let mut reg = Registry::new();
    assert_eq!(reg.dispatch(registration(ID, "alpha")), Ok(None));
    assert_eq!(
        reg.dispatch(registration("not-an-identifier", "beta")),
        Err(DispatchError::InvalidArgument)
    );
    assert_eq!(reg.len(), 1);
    assert_eq!(reg.get(0x67e5504410b1426f9247bb680e5fe0c8).unwrap().hostname, b"alpha".to_vec());
}

#[test]
fn other_envelopes_leave_registry_alone() {
    let mut reg = Registry::new();
    assert_eq!(reg.dispatch(Envelope::Message(MessageRequest { body: vec![1] })), Ok(None));
    assert_eq!(reg.dispatch(Envelope::Unrecognized), Ok(None));
    assert_eq!(reg.len(), 0);
}

#[test]
fn apply_registration_with_parsed_identifier() {
    let mut reg = Registry::new();
    let req = RegistrationRequest {
        agent_id: b"whatever".to_vec(),
        hostname: b"h".to_vec(),
        version: b"v".to_vec(),
        timestamp: 1,
    };
    assert_eq!(reg.apply_registration(Some(42), req), Ok(()));
    assert_eq!(reg.get(42).unwrap().hostname, b"h".to_vec());
    let req = RegistrationRequest {
        agent_id: Vec::new(),
        hostname: b"g".to_vec(),
        version: b"v".to_vec(),
        timestamp: 1,
    };
    assert_eq!(reg.apply_registration(None, req), Err(DispatchError::InvalidArgument));
    assert_eq!(reg.len(), 1);
}

#[test]
fn insert_replaces_record() {
    let mut reg = Registry::new();
    reg.insert(7, AgentRecord { hostname: b"a".to_vec(), version: b"1".to_vec() });
    reg.insert(7, AgentRecord { hostname: b"b".to_vec(), version: b"2".to_vec() });
    assert_eq!(reg.len(), 1);
    assert_eq!(reg.get(7).unwrap().version, b"2".to_vec());
    assert!(reg.get(8).is_none());
}

#[test]
fn concurrent_registrations_are_all_kept() {
    let runtime = tokio::runtime::Builder::new_multi_thread().worker_threads(4).build().unwrap();
    let registry = Arc::new(tokio::sync::Mutex::new(Registry::new()));
    let n: u32 = 64;
    runtime.block_on(async {
        let mut tasks = Vec::new();
        for i in 0..n {
            let registry = registry.clone();
            tasks.push(tokio::spawn(async move {
                let id = format!("00000000-0000-7000-8000-{:012x}", i);
                let env = registration(&id, &format!("host{i}"));
                registry.lock().await.dispatch(env)
            }));
        }
        for t in tasks {
            assert_eq!(t.await.unwrap(), Ok(None));
        }
    });
    assert_eq!(runtime.block_on(async { registry.lock().await.len() }), n as usize);
}

#[test]
fn agent_ids_lists_each_agent_once() {
    let mut reg = Registry::new();
    assert!(reg.agent_ids().is_empty());
    reg.insert(3, AgentRecord { hostname: b"a".to_vec(), version: b"1".to_vec() });
    reg.insert(1, AgentRecord { hostname: b"b".to_vec(), version: b"1".to_vec() });
    reg.insert(3, AgentRecord { hostname: b"c".to_vec(), version: b"1".to_vec() });
    let mut ids = reg.agent_ids();
    ids.sort();
    assert_eq!(ids, vec![1, 3]);
}
