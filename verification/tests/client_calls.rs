use kbs_client::cell::{Installed, SharedBackendCell};
use kbs_client::client::{proceed, Call, Event, KbcClient, Reply, Request};
use kbs_client::error::ClientError;
use kbs_client::registry::{BackendKind, Construction, Features};

const OFFLINE_LINE: &str = "quiet agent.aa_kbc_params=offline_fs_kbc:: splash";

/// A backend that answers with the URI's bytes behind a fixed header, or
/// fails on the URIs that end in `missing`.
#[derive(Debug, PartialEq, Eq)]
struct Stub {
    kind: BackendKind,
    host: Option<String>,
    fetches: usize,
}

impl Stub {
    fn get_resource(&mut self, uri: &str) -> Result<Vec<u8>, String> {
        self.fetches += 1;
        if uri.ends_with("missing") {
            Err(format!("resource {uri} not found"))
        } else {
            Ok(payload(uri))
        }
    }
}

fn payload(uri: &str) -> Vec<u8> {
    let mut bytes = vec![0u8, 255u8];
    bytes.extend_from_slice(uri.as_bytes());
    bytes
}

/// The machine around the cell: a command line, and counters of what was
/// done to it.
struct World {
    cmdline: Result<String, String>,
    fail_construction: bool,
    reads: usize,
    constructions: usize,
    fetches: usize,
}

impl World {
    fn new(cmdline: &str) -> World {
        World {
            cmdline: Ok(cmdline.to_string()),
            fail_construction: false,
            reads: 0,
            constructions: 0,
            fetches: 0,
        }
    }
}

fn parse(name: &str) -> Option<String> {
    if name.starts_with("kbs://") {
        Some(name.to_string())
    } else {
        None
    }
}

/// Drives one call to its end, doing what each action asks for.
fn drive(
    world: &mut World,
    cell: &mut SharedBackendCell<Stub>,
    mut call: Call<String>,
) -> Result<Reply, ClientError> {
    loop {
        let event = match &call {
            Call::AcquireLock { .. } => Event::LockAcquired,
            Call::ReadCommandLine { .. } => {
                world.reads += 1;
                Event::CommandLine(world.cmdline.clone())
            }
            Call::Construct { plan, .. } => {
                world.constructions += 1;
                if world.fail_construction {
                    Event::Constructed(Err("constructor failed".to_string()))
                } else {
                    Event::Constructed(Ok(Stub {
                        kind: plan.kind,
                        host: plan.host.clone(),
                        fetches: 0,
                    }))
                }
            }
            Call::Fetch { uri } => {
                world.fetches += 1;
                let backend = cell.backend_mut().expect("a call fetches from a filled cell");
                Event::Fetched(backend.get_resource(uri))
            }
            Call::Finished(_) => break,
        };
        call = call.step(cell, event);
    }
    match call {
        Call::Finished(result) => result,
        _ => unreachable!(),
    }
}

fn get_secret(
    world: &mut World,
    cell: &mut SharedBackendCell<Stub>,
    name: &str,
) -> Result<Vec<u8>, ClientError> {
    match drive(world, cell, KbcClient.get_secret(name, parse(name))) {
        Ok(Reply::Secret(bytes)) => Ok(bytes),
        Ok(Reply::Handle(_)) => panic!("a call for a secret returned the handle"),
        Err(e) => Err(e),
    }
}

fn new_client(
    world: &mut World,
    cell: &mut SharedBackendCell<Stub>,
) -> Result<KbcClient, ClientError> {
    match drive(world, cell, KbcClient::new()) {
        Ok(Reply::Handle(client)) => Ok(client),
        Ok(Reply::Secret(_)) => panic!("a call for the handle returned a secret"),
        Err(e) => Err(e),
    }
}

fn empty_cell() -> SharedBackendCell<Stub> {
    SharedBackendCell::new(Features { kbs: true, sev: true })
}

#[test]
fn offline_happy_path() {
    let mut world = World::new(OFFLINE_LINE);
    let mut cell = empty_cell();
    assert_eq!(
        get_secret(&mut world, &mut cell, "kbs:///default/key/1"),
        Ok(payload("kbs:///default/key/1"))
    );
    assert_eq!(world.constructions, 1);
    assert_eq!(world.fetches, 1);
    assert_eq!(world.reads, 1);
    assert_eq!(cell.kind(), Some(BackendKind::OfflineFilesystem));
    let backend = cell.backend_mut().unwrap();
    assert_eq!(backend.host, None);
    assert_eq!(backend.fetches, 1);
}

#[test]
fn unknown_kind() {
    let mut world = World::new("agent.aa_kbc_params=mystery_kbc::host");
    let mut cell = empty_cell();
    assert_eq!(
        new_client(&mut world, &mut cell),
        Err(ClientError::UnknownBackend("mystery_kbc".to_string()))
    );
    assert_eq!(world.constructions, 0);
    assert!(!cell.is_populated());
}

#[test]
fn missing_parameter_fails_the_call() {
    let mut world = World::new("ro console=ttyS0");
    let mut cell = empty_cell();
    assert_eq!(get_secret(&mut world, &mut cell, "kbs:///x"), Err(ClientError::MissingParameter));
    assert_eq!(world.constructions, 0);
    assert_eq!(world.fetches, 0);
    assert!(!cell.is_populated());
}

#[test]
fn malformed_parameter_fails_new() {
    let mut world = World::new("agent.aa_kbc_params=cc_kbc:host");
    let mut cell = empty_cell();
    assert_eq!(new_client(&mut world, &mut cell), Err(ClientError::MalformedParameter));
    assert_eq!(world.constructions, 0);
    assert!(!cell.is_populated());
}

#[test]
fn invalid_resource_uri() {
    let mut world = World::new(OFFLINE_LINE);
    let mut cell = empty_cell();
    assert_eq!(
        get_secret(&mut world, &mut cell, "not a uri"),
        Err(ClientError::InvalidResourceUri("not a uri".to_string()))
    );
    assert_eq!(world.fetches, 0);
    assert_eq!(world.reads, 0);
    assert_eq!(world.constructions, 0);
    assert!(!cell.is_populated());

    assert_eq!(new_client(&mut world, &mut cell), Ok(KbcClient));
    assert_eq!(
        get_secret(&mut world, &mut cell, "not a uri"),
        Err(ClientError::InvalidResourceUri("not a uri".to_string()))
    );
    assert_eq!(world.fetches, 0);
    assert_eq!(world.constructions, 1);
}

#[test]
fn concurrent_first_use() {
    let mut world = World::new(OFFLINE_LINE);
    let mut cell = empty_cell();
    let names: Vec<String> = (0..100).map(|i| format!("kbs:///default/key/{i}")).collect();
    let calls: Vec<Call<String>> =
        names.iter().map(|name| KbcClient.get_secret(name, parse(name))).collect();
    for (name, call) in names.iter().zip(calls) {
        assert!(matches!(call, Call::AcquireLock { .. }));
        assert_eq!(drive(&mut world, &mut cell, call), Ok(Reply::Secret(payload(name))));
    }
    assert_eq!(world.constructions, 1);
    assert_eq!(world.reads, 1);
    assert_eq!(world.fetches, 100);
    assert_eq!(cell.backend_mut().unwrap().fetches, 100);
}

#[test]
fn new_sets_the_backend_up_once() {
    let mut world = World::new("agent.aa_kbc_params=cc_kbc::http://kbs:8080");
    let mut cell = empty_cell();
    assert_eq!(new_client(&mut world, &mut cell), Ok(KbcClient));
    assert_eq!(new_client(&mut world, &mut cell), Ok(KbcClient));
    assert_eq!(get_secret(&mut world, &mut cell, "kbs:///a/b/c"), Ok(payload("kbs:///a/b/c")));
    assert_eq!(world.constructions, 1);
    assert_eq!(world.reads, 1);
    assert_eq!(cell.kind(), Some(BackendKind::NetworkedConfidential));
    assert_eq!(cell.backend_mut().unwrap().host, Some("http://kbs:8080".to_string()));
}

#[test]
fn the_kind_stays_when_the_command_line_changes() {
    let mut world = World::new("agent.aa_kbc_params=online_sev_kbc::10.0.0.1");
    let mut cell = empty_cell();
    assert_eq!(new_client(&mut world, &mut cell), Ok(KbcClient));
    world.cmdline = Ok(OFFLINE_LINE.to_string());
    assert_eq!(get_secret(&mut world, &mut cell, "kbs:///a/b/c"), Ok(payload("kbs:///a/b/c")));
    assert_eq!(cell.kind(), Some(BackendKind::HardwareSev));
    assert_eq!(world.constructions, 1);
}

#[test]
fn a_failed_construction_leaves_the_cell_empty_and_is_tried_again() {
    let mut world = World::new(OFFLINE_LINE);
    world.fail_construction = true;
    let mut cell = empty_cell();
    assert_eq!(
        get_secret(&mut world, &mut cell, "kbs:///a/b/c"),
        Err(ClientError::BackendConstructionError("constructor failed".to_string()))
    );
    assert!(!cell.is_populated());
    assert_eq!(world.constructions, 1);
    assert_eq!(world.fetches, 0);

    world.fail_construction = false;
    assert_eq!(get_secret(&mut world, &mut cell, "kbs:///a/b/c"), Ok(payload("kbs:///a/b/c")));
    assert_eq!(world.constructions, 2);
    assert_eq!(get_secret(&mut world, &mut cell, "kbs:///a/b/d"), Ok(payload("kbs:///a/b/d")));
    assert_eq!(world.constructions, 2);
}

#[test]
fn an_unreadable_command_line_fails_the_call() {
    let mut world = World::new("");
    world.cmdline = Err("permission denied".to_string());
    let mut cell = empty_cell();
    assert_eq!(
        new_client(&mut world, &mut cell),
        Err(ClientError::BootReadError("permission denied".to_string()))
    );
    assert!(!cell.is_populated());
    world.cmdline = Ok(OFFLINE_LINE.to_string());
    assert_eq!(new_client(&mut world, &mut cell), Ok(KbcClient));
    assert_eq!(world.reads, 2);
}

#[test]
fn backend_results_pass_through() {
    let mut world = World::new(OFFLINE_LINE);
    let mut cell = empty_cell();
    assert_eq!(get_secret(&mut world, &mut cell, "kbs:///a/b/c"), Ok(payload("kbs:///a/b/c")));
    assert_eq!(
        get_secret(&mut world, &mut cell, "kbs:///a/b/missing"),
        Err(ClientError::BackendOperationError("resource kbs:///a/b/missing not found".to_string()))
    );
    assert_eq!(world.fetches, 2);
    assert_eq!(world.constructions, 1);

    let fetch: Call<String> = Call::Fetch { uri: "kbs:///x".to_string() };
    assert_eq!(
        fetch.step(&mut cell, Event::Fetched(Ok(vec![]))),
        Call::Finished(Ok(Reply::Secret(vec![])))
    );
}

#[test]
fn a_build_without_the_kind_refuses_it() {
    let mut world = World::new("agent.aa_kbc_params=cc_kbc::http://kbs:8080");
    let mut cell: SharedBackendCell<Stub> =
        SharedBackendCell::new(Features { kbs: false, sev: false });
    assert_eq!(cell.features(), Features { kbs: false, sev: false });
    let e = new_client(&mut world, &mut cell).unwrap_err();
    assert_eq!(e, ClientError::UnknownBackend("cc_kbc".to_string()));
    assert_eq!(e.message(cell.features()), "unknown kbc name cc_kbc, only support `offline_fs_kbc`.");
    assert_eq!(world.constructions, 0);
    assert!(!cell.is_populated());
}

#[test]
fn the_steps_of_a_first_call() {
    let mut cell = empty_cell();
    let call = KbcClient.get_secret("kbs:///a/b/c", Some("kbs:///a/b/c".to_string()));
    assert_eq!(call, Call::AcquireLock { request: Request::Secret("kbs:///a/b/c".to_string()) });
    assert!(!call.is_finished());
    let call = call.step(&mut cell, Event::LockAcquired);
    assert_eq!(call, Call::ReadCommandLine { request: Request::Secret("kbs:///a/b/c".to_string()) });
    let call = call.step(&mut cell, Event::CommandLine(Ok("agent.aa_kbc_params=cc_kbc::h".into())));
    assert_eq!(
        call,
        Call::Construct {
            request: Request::Secret("kbs:///a/b/c".to_string()),
            plan: Construction {
                kind: BackendKind::NetworkedConfidential,
                host: Some("h".to_string())
            },
        }
    );
    assert!(!cell.is_populated());
    let stub = Stub { kind: BackendKind::NetworkedConfidential, host: None, fetches: 0 };
    let call = call.step(&mut cell, Event::Constructed(Ok(stub)));
    assert_eq!(call, Call::Fetch { uri: "kbs:///a/b/c".to_string() });
    assert!(cell.is_populated());
    let call = call.step(&mut cell, Event::Fetched(Ok(vec![1, 2, 3])));
    assert_eq!(call, Call::Finished(Ok(Reply::Secret(vec![1, 2, 3]))));
    assert!(call.is_finished());
}

#[test]
fn an_event_that_answers_nothing_changes_nothing() {
    let mut cell = empty_cell();
    let call: Call<String> = KbcClient::new();
    let call = call.step(&mut cell, Event::Fetched(Ok(vec![1])));
    assert_eq!(call, Call::AcquireLock { request: Request::Handle });
    let call = call.step(&mut cell, Event::CommandLine(Ok(OFFLINE_LINE.to_string())));
    assert_eq!(call, Call::AcquireLock { request: Request::Handle });
    let stub = Stub { kind: BackendKind::OfflineFilesystem, host: None, fetches: 0 };
    let call = call.step(&mut cell, Event::Constructed(Ok(stub)));
    assert_eq!(call, Call::AcquireLock { request: Request::Handle });
    assert!(!cell.is_populated());

    let done: Call<String> = Call::Finished(Err(ClientError::MissingParameter));
    let done = done.step(&mut cell, Event::LockAcquired);
    assert_eq!(done, Call::Finished(Err(ClientError::MissingParameter)));
    assert!(!cell.is_populated());
}

#[test]
fn a_filled_cell_keeps_its_backend() {
    let mut cell = empty_cell();
    assert_eq!(cell.kind(), None);
    assert!(cell.backend_mut().is_none());
    let first = Stub { kind: BackendKind::HardwareSev, host: Some("a".to_string()), fetches: 0 };
    let second = Stub { kind: BackendKind::OfflineFilesystem, host: None, fetches: 7 };
    assert!(cell.install(BackendKind::HardwareSev, first));
    assert!(!cell.install(BackendKind::OfflineFilesystem, second));
    assert_eq!(cell.kind(), Some(BackendKind::HardwareSev));
    assert_eq!(cell.backend_mut().unwrap().host, Some("a".to_string()));

    let late: Call<String> = Call::Construct {
        request: Request::Handle,
        plan: Construction { kind: BackendKind::OfflineFilesystem, host: None },
    };
    let other = Stub { kind: BackendKind::OfflineFilesystem, host: None, fetches: 9 };
    assert_eq!(
        late.step(&mut cell, Event::Constructed(Ok(other))),
        Call::Finished(Ok(Reply::Handle(KbcClient)))
    );
    assert_eq!(cell.kind(), Some(BackendKind::HardwareSev));
    assert_eq!(cell.backend_mut().unwrap().fetches, 0);
}

#[test]
fn proceeding_fetches_or_finishes() {
    assert_eq!(proceed::<String>(Request::Handle), Call::Finished(Ok(Reply::Handle(KbcClient))));
    assert_eq!(
        proceed(Request::Secret("kbs:///a".to_string())),
        Call::Fetch { uri: "kbs:///a".to_string() }
    );
    let held = Installed { kind: BackendKind::OfflineFilesystem, backend: 5u8 };
    assert_eq!(held.kind, BackendKind::OfflineFilesystem);
}

#[test]
fn concurrent_new_and_get_secret() {
    let mut world = World::new(OFFLINE_LINE);
    let mut cell = empty_cell();
    let mut waiting: Vec<(Option<String>, Call<String>)> = Vec::new();
    for i in 0..100 {
        if i % 2 == 0 {
            waiting.push((None, KbcClient::new()));
        } else {
            let name = format!("kbs:///default/key/{i}");
            let call = KbcClient.get_secret(&name, parse(&name));
            waiting.push((Some(name), call));
        }
    }
    let mut served = 0;
    let mut at = 37;
    while !waiting.is_empty() {
        at = (at * 31 + 7) % waiting.len();
        let (name, call) = waiting.swap_remove(at);
        let reply = drive(&mut world, &mut cell, call);
        match name {
            None => assert_eq!(reply, Ok(Reply::Handle(KbcClient))),
            Some(name) => assert_eq!(reply, Ok(Reply::Secret(payload(&name)))),
        }
        served += 1;
        assert_eq!(world.constructions, 1);
        assert_eq!(world.reads, 1);
    }
    assert_eq!(served, 100);
    assert_eq!(world.fetches, 50);
    assert_eq!(cell.kind(), Some(BackendKind::OfflineFilesystem));
    assert_eq!(cell.backend_mut().unwrap().fetches, 50);
}
