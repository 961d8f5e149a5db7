use pegasus_server::client::{
    collect_handshakes, Dispatch, JobConf, JobError, RPCJobClient, RpcStatus, ServerSelection,
    ServersDescriptor,
};
use pegasus_server::job::JobDesc;

fn conf(servers: ServerSelection) -> JobConf {
    JobConf {
        job_id: 7,
        job_name: "k_hop".to_string(),
        workers: 4,
        time_limit: 60_000,
        batch_size: 1024,
        batch_capacity: 64,
        memory_limit: 512,
        trace_enable: true,
        servers,
    }
}

fn job() -> JobDesc {
    let mut j = JobDesc::new();
    j.set_input(vec![1, 2, 3]);
    j.set_plan(Vec::new());
    j.set_resource(b"graph_lib".to_vec());
    j
}

#[test]
fn local_with_no_connection_is_empty() {
    let client: RPCJobClient<&str> = RPCJobClient::new();
    assert!(matches!(client.submit(conf(ServerSelection::Local), job()), Ok(Dispatch::Empty)));
    let mut gaps: RPCJobClient<&str> = RPCJobClient::new();
    gaps.connect(3, "c3");
    assert_eq!(gaps.select_local(), vec![3]);
}

#[test]
fn local_picks_lowest_connected_id() {
    let mut client: RPCJobClient<&str> = RPCJobClient::new();
    client.connect(4, "c4");
    client.connect(2, "c2");
    match client.submit(conf(ServerSelection::Local), job()) {
        Ok(Dispatch::Single(slot, req)) => {
            assert_eq!(slot, 2);
            assert!(matches!(req.conf.servers, ServersDescriptor::Local));
        }
        _ => panic!("expected a single dispatch"),
    }
}

#[test]
fn partial_with_missing_server_fails() {
    let mut client: RPCJobClient<&str> = RPCJobClient::new();
    client.connect(0, "c0");
    match client.submit(conf(ServerSelection::Partial(vec![2])), job()) {
        Err(e) => {
            assert!(e.message().contains("server[2]"));
            match e {
                JobError::InvalidConfig(id) => assert_eq!(id, 2),
                _ => panic!("expected InvalidConfig"),
            }
        }
        _ => panic!("expected InvalidConfig"),
    }
}

#[test]
fn partial_reports_first_missing_in_list_order() {
    let mut client: RPCJobClient<&str> = RPCJobClient::new();
    client.connect(0, "c0");
    client.connect(5, "c5");
    match client.select_partial(&vec![5, 0, 3, 1]) {
        Err(id) => assert_eq!(id, 3),
        Ok(_) => panic!("expected a missing server"),
    }
    assert_eq!(client.select_partial(&vec![5, 0]).ok(), Some(vec![5, 0]));
}

#[test]
fn partial_all_connected_builds_request() {
    let mut client: RPCJobClient<&str> = RPCJobClient::new();
    client.connect(0, "c0");
    client.connect(1, "c1");
    match client.submit(conf(ServerSelection::Partial(vec![1, 0])), job()) {
        Ok(Dispatch::Multi(targets, req)) => {
            assert_eq!(targets, vec![1, 0]);
            match req.conf.servers {
                ServersDescriptor::Part(ids) => assert_eq!(ids, vec![1, 0]),
                _ => panic!("expected a partial record"),
            }
            assert_eq!(req.conf.job_id, 7);
            assert_eq!(req.conf.job_name, "k_hop");
            assert_eq!(req.conf.workers, 4);
            assert_eq!(req.conf.time_limit, 60_000);
            assert_eq!(req.conf.batch_size, 1024);
            assert_eq!(req.conf.batch_capacity, 64);
            assert_eq!(req.conf.memory_limit, 512);
            assert!(req.conf.trace_enable);
            assert_eq!(req.payload.source, Some(vec![1, 2, 3]));
            assert_eq!(req.payload.plan, None);
            assert_eq!(req.payload.resource, Some(b"graph_lib".to_vec()));
        }
        _ => panic!("expected a multi dispatch"),
    }
}

#[test]
fn all_sends_one_request_per_connection() {
    let mut client: RPCJobClient<&str> = RPCJobClient::new();
    client.connect(0, "c0");
    client.connect(1, "c1");
    client.connect(2, "c2");
    match client.submit(conf(ServerSelection::All), job()) {
        Ok(Dispatch::Multi(targets, _)) => assert_eq!(targets, vec![0, 1, 2]),
        _ => panic!("expected a multi dispatch"),
    }
}

#[test]
fn all_with_gap_fails_at_first_gap() {
    let mut client: RPCJobClient<&str> = RPCJobClient::new();
    client.connect(0, "c0");
    client.connect(3, "c3");
    match client.submit(conf(ServerSelection::All), job()) {
        Err(JobError::InvalidConfig(id)) => assert_eq!(id, 1),
        _ => panic!("expected InvalidConfig"),
    }
}

#[test]
fn all_on_empty_table_is_empty() {
    let client: RPCJobClient<&str> = RPCJobClient::new();
    assert!(matches!(client.submit(conf(ServerSelection::All), job()), Ok(Dispatch::Empty)));
}

#[test]
fn connect_grows_and_replaces() {
    let mut client: RPCJobClient<&str> = RPCJobClient::new();
    client.connect(3, "first");
    assert_eq!(client.num_slots(), 4);
    assert!(!client.is_connected(0));
    assert!(!client.is_connected(9));
    assert_eq!(client.get(3), Some(&"first"));
    client.connect(3, "second");
    client.connect(1, "one");
    assert_eq!(client.num_slots(), 4);
    assert_eq!(client.get(3), Some(&"second"));
    assert_eq!(client.get(1), Some(&"one"));
    assert_eq!(client.get(2), None);
}

#[test]
fn handshakes_all_ok_keep_order() {
    let results: Vec<Result<u32, RpcStatus>> = vec![Ok(10), Ok(20), Ok(30)];
    match collect_handshakes(results) {
        Ok(streams) => assert_eq!(streams, vec![10, 20, 30]),
        Err(_) => panic!("expected every stream"),
    }
}

#[test]
fn handshake_failure_is_rpc_error() {
    let results: Vec<Result<u32, RpcStatus>> = vec![
        Ok(10),
        Err(RpcStatus { code: 14, message: "unavailable".to_string() }),
        Err(RpcStatus { code: 4, message: "deadline".to_string() }),
    ];
    match collect_handshakes(results) {
        Err(JobError::RPCError(status)) => {
            assert_eq!(status.code, 14);
            assert_eq!(status.message, "unavailable");
        }
        _ => panic!("expected RPCError"),
    }
}

#[test]
fn error_messages_name_the_server() {
    assert_eq!(JobError::InvalidConfig(2).message(), "server[2] not connected");
    assert_eq!(JobError::InvalidConfig(0).message(), "server[0] not connected");
    assert_eq!(JobError::InvalidConfig(105).message(), "server[105] not connected");
    let e = JobError::RPCError(RpcStatus { code: 14, message: "unavailable".to_string() });
    assert_eq!(e.message(), "RPC error: unavailable");
}
