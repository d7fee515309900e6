use mutsuki_runtime::abi::{
    configured_guest_step, finish_initialization, route_guest_request, route_host_request,
    AbiRefusal, ConfiguredGuestAction, ConfiguredGuestState, GuestCall, GuestRoute, HostCall, HostRoute,
};
use mutsuki_runtime::plugin::{
    ensure_plugin_backend, AbiTransport, BridgeDescriptor, CodecDescriptor, HostExtensionDescriptor,
    HostExtensionKind, PluginBackendDescriptor, PluginDeploymentKind, Provides,
};
use mutsuki_runtime::protocol::{Opcode, WireCodecError};

fn refusal(opcode: Opcode, route: &str, detail: &str) -> AbiRefusal {
    AbiRefusal { opcode, route: route.into(), detail: detail.into() }
}

#[test]
fn guest_routes_runner_and_provider_requests() {
    let runners = vec!["runner-a".to_string(), "runner-b".to_string()];
    let providers = vec!["provider-a".to_string()];
    assert_eq!(
        route_guest_request(true, &runners, &providers, Opcode::RunnerCancel, Some("runner-b"), None),
        GuestRoute::Runner { call: GuestCall::CancelRunner, runner: 1 }
    );
    assert_eq!(
        route_guest_request(true, &runners, &providers, Opcode::RunnerRunBatch, Some("runner-x"), None),
        GuestRoute::Refuse(refusal(Opcode::RunnerRunBatch, "abi.runner_not_found", "runner-x"))
    );
    assert_eq!(
        route_guest_request(true, &runners, &providers, Opcode::ResourceSaga, None, Some("provider-a")),
        GuestRoute::Provider { call: GuestCall::SagaPlan, provider: 0 }
    );
    assert_eq!(
        route_guest_request(true, &runners, &providers, Opcode::ResourceCreateBlob, None, None),
        GuestRoute::Refuse(refusal(Opcode::ResourceCreateBlob, "abi.provider_missing", "provider_id is required"))
    );
    assert_eq!(
        route_guest_request(true, &runners, &providers, Opcode::ResourceExport, None, Some("provider-z")),
        GuestRoute::Refuse(refusal(Opcode::ResourceExport, "abi.provider_not_found", "provider-z"))
    );
    assert_eq!(
        route_guest_request(true, &runners, &providers, Opcode::TaskSubmitBatch, None, None),
        GuestRoute::Refuse(refusal(
            Opcode::TaskSubmitBatch,
            "abi.guest_opcode_unsupported",
            "unsupported guest opcode 0x2001"
        ))
    );
}

#[test]
fn guest_initializes_once_before_business_requests() {
    let none: Vec<String> = Vec::new();
    assert_eq!(
        route_guest_request(false, &none, &none, Opcode::PluginInitialize, None, None),
        GuestRoute::Initialize
    );
    assert_eq!(
        route_guest_request(true, &none, &none, Opcode::PluginInitialize, None, None),
        GuestRoute::Refuse(refusal(
            Opcode::PluginInitialize,
            "abi.already_initialized",
            "plugin.initialize may only be called once"
        ))
    );
    assert_eq!(
        route_guest_request(false, &none, &none, Opcode::RunnerDispose, Some("runner-a"), None),
        GuestRoute::Refuse(refusal(
            Opcode::RunnerDispose,
            "abi.not_initialized",
            "plugin.initialize must precede business requests"
        ))
    );
}

#[test]
fn configured_guest_tries_initialization_once() {
    let (state, action) = configured_guest_step(ConfiguredGuestState::Fresh, Opcode::RunnerCancel);
    assert_eq!(state, ConfiguredGuestState::Fresh);
    assert_eq!(
        action,
        ConfiguredGuestAction::Refuse(refusal(
            Opcode::RunnerCancel,
            "abi.not_initialized",
            "plugin.initialize must precede business requests"
        ))
    );
    let (state, action) = configured_guest_step(ConfiguredGuestState::Fresh, Opcode::PluginInitialize);
    assert_eq!((state, action), (ConfiguredGuestState::Attempted, ConfiguredGuestAction::Initialize));
    let failed = finish_initialization(false);
    let (state, action) = configured_guest_step(failed, Opcode::PluginInitialize);
    assert_eq!(state, ConfiguredGuestState::Attempted);
    assert_eq!(
        action,
        ConfiguredGuestAction::Refuse(refusal(
            Opcode::PluginInitialize,
            "abi.already_initialized",
            "plugin.initialize may only be called once"
        ))
    );
    let ready = finish_initialization(true);
    assert_eq!(
        configured_guest_step(ready, Opcode::ResourceSaga),
        (ConfiguredGuestState::Ready, ConfiguredGuestAction::Delegate)
    );
}

#[test]
fn host_routes_each_request_to_one_service() {
    assert_eq!(route_host_request(Ok(Opcode::TaskSubmitBatch)), HostRoute::Call(HostCall::SubmitTaskBatch));
    assert_eq!(route_host_request(Ok(Opcode::ResourceWriteCommit)), HostRoute::Call(HostCall::CommitWritePlan));
    assert_eq!(
        route_host_request(Ok(Opcode::ResourceCreateCowState)),
        HostRoute::Refuse(refusal(
            Opcode::ResourceCreateCowState,
            "abi.host_opcode_unsupported",
            "unsupported host opcode 0x300a"
        ))
    );
    assert_eq!(
        route_host_request(Err(WireCodecError::InvalidRequestId)),
        HostRoute::Undecodable(WireCodecError::InvalidRequestId)
    );
}

fn abi() -> AbiTransport {
    AbiTransport { codec_id: "codec.abi".into(), bridge_id: "bridge.abi".into(), transport_version: 2 }
}

fn provides(runners: &[&str]) -> Provides {
    Provides {
        runner_ids: runners.iter().map(|r| r.to_string()).collect(),
        host_extensions: Vec::new(),
        plugin_backends: Vec::new(),
        codecs: Vec::new(),
        bridges: Vec::new(),
    }
}

#[test]
fn plugin_without_runners_declares_no_backend() {
    let mut p = provides(&[]);
    ensure_plugin_backend(&mut p, "plugin-a", PluginDeploymentKind::Abi, &abi());
    assert_eq!(p, provides(&[]));
}

#[test]
fn abi_plugin_backend_is_declared_once() {
    let mut p = provides(&["runner-a"]);
    ensure_plugin_backend(&mut p, "plugin-a", PluginDeploymentKind::Abi, &abi());
    assert_eq!(
        p.host_extensions,
        vec![HostExtensionDescriptor {
            extension_id: "host.extension.plugin-a.abi".into(),
            kind: HostExtensionKind::PluginBackend,
            supported_deployments: vec![PluginDeploymentKind::Abi],
            reload_policy: "static".into(),
            drain_required: false,
        }]
    );
    assert_eq!(
        p.plugin_backends,
        vec![PluginBackendDescriptor {
            backend_id: "plugin.backend.plugin-a.abi".into(),
            deployment_kind: PluginDeploymentKind::Abi,
            task_client_protocol: "mutsuki.task.v1".into(),
            resource_client_protocol: "mutsuki.resource-plan.v1".into(),
            codec_id: Some("codec.abi".into()),
            bridge_id: Some("bridge.abi".into()),
        }]
    );
    assert_eq!(
        p.codecs,
        vec![CodecDescriptor {
            codec_id: "codec.abi".into(),
            media_type: "application/msgpack".into(),
            version: "2".into(),
            connection_scoped: true,
        }]
    );
    assert_eq!(
        p.bridges,
        vec![BridgeDescriptor {
            bridge_id: "bridge.abi".into(),
            deployment_kind: PluginDeploymentKind::Abi,
            codec_ids: vec!["codec.abi".into()],
            drain_policy: "drain_and_swap".into(),
        }]
    );
    let once = p.clone();
    ensure_plugin_backend(&mut p, "plugin-a", PluginDeploymentKind::Abi, &abi());
    assert_eq!(p, once);
}

#[test]
fn builtin_plugin_backend_keeps_existing_declarations() {
    let mut p = provides(&["runner-a"]);
    p.host_extensions.push(HostExtensionDescriptor {
        extension_id: "host.extension.plugin-b.builtin".into(),
        kind: HostExtensionKind::PluginBackend,
        supported_deployments: vec![],
        reload_policy: "manual".into(),
        drain_required: true,
    });
    ensure_plugin_backend(&mut p, "plugin-b", PluginDeploymentKind::Builtin, &abi());
    assert_eq!(p.host_extensions.len(), 1);
    assert_eq!(p.host_extensions[0].reload_policy, "manual");
    assert_eq!(p.plugin_backends.len(), 1);
    assert_eq!(p.plugin_backends[0].backend_id, "plugin.backend.plugin-b.builtin");
    assert_eq!(p.plugin_backends[0].codec_id, None);
    assert!(p.codecs.is_empty());
    assert!(p.bridges.is_empty());
}
