//! The backend a plugin declares for its runners: a host extension and a plugin
//! backend for its deployment and, for ABI plugins, the ABI codec and bridge.
use vstd::prelude::*;
use vstd::string::*;

use crate::text::str_eq;

verus! {

/// How a plugin is deployed.
#[derive(Clone, Copy, Debug, PartialEq, Eq)]
pub enum PluginDeploymentKind {
    Builtin,
    Abi,
    Wasm,
    Process,
    Python,
}

/// The kind of a host extension this library declares.
#[derive(Clone, Copy, Debug, PartialEq, Eq)]
pub enum HostExtensionKind {
    PluginBackend,
}

#[derive(Clone, Debug, PartialEq, Eq)]
pub struct HostExtensionDescriptor {
    pub extension_id: String,
    pub kind: HostExtensionKind,
    pub supported_deployments: Vec<PluginDeploymentKind>,
    pub reload_policy: String,
    pub drain_required: bool,
}

#[derive(Clone, Debug, PartialEq, Eq)]
pub struct PluginBackendDescriptor {
    pub backend_id: String,
    pub deployment_kind: PluginDeploymentKind,
    pub task_client_protocol: String,
    pub resource_client_protocol: String,
    pub codec_id: Option<String>,
    pub bridge_id: Option<String>,
}

#[derive(Clone, Debug, PartialEq, Eq)]
pub struct CodecDescriptor {
    pub codec_id: String,
    pub media_type: String,
    pub version: String,
    pub connection_scoped: bool,
}

#[derive(Clone, Debug, PartialEq, Eq)]
pub struct BridgeDescriptor {
    pub bridge_id: String,
    pub deployment_kind: PluginDeploymentKind,
    pub codec_ids: Vec<String>,
    pub drain_policy: String,
}

/// What a plugin provides, as far as its backend declaration reads and writes it.
#[derive(Clone, Debug, PartialEq, Eq)]
pub struct Provides {
    pub runner_ids: Vec<String>,
    pub host_extensions: Vec<HostExtensionDescriptor>,
    pub plugin_backends: Vec<PluginBackendDescriptor>,
    pub codecs: Vec<CodecDescriptor>,
    pub bridges: Vec<BridgeDescriptor>,
}

/// The identity of the ABI transport an ABI plugin's backend speaks.
#[derive(Clone, Debug, PartialEq, Eq)]
pub struct AbiTransport {
    pub codec_id: String,
    pub bridge_id: String,
    pub transport_version: u32,
}

pub open spec fn deployment_name(kind: PluginDeploymentKind) -> Seq<char> {
    match kind {
        PluginDeploymentKind::Builtin => "builtin"@,
        PluginDeploymentKind::Abi => "abi"@,
        PluginDeploymentKind::Wasm => "wasm"@,
        PluginDeploymentKind::Process => "process"@,
        PluginDeploymentKind::Python => "python"@,
    }
}

fn deployment_text(kind: PluginDeploymentKind) -> (r: &'static str)
    ensures
        r@ == deployment_name(kind),
{
    match kind {
        PluginDeploymentKind::Builtin => "builtin",
        PluginDeploymentKind::Abi => "abi",
        PluginDeploymentKind::Wasm => "wasm",
        PluginDeploymentKind::Process => "process",
        PluginDeploymentKind::Python => "python",
    }
}

/// `host.extension.<plugin>.<deployment>`
pub open spec fn extension_id(plugin_id: Seq<char>, kind: PluginDeploymentKind) -> Seq<char> {
    "host.extension."@ + plugin_id + "."@ + deployment_name(kind)
}

/// `plugin.backend.<plugin>.<deployment>`
pub open spec fn backend_id(plugin_id: Seq<char>, kind: PluginDeploymentKind) -> Seq<char> {
    "plugin.backend."@ + plugin_id + "."@ + deployment_name(kind)
}

fn scoped_id(prefix: &str, plugin_id: &str, kind: PluginDeploymentKind) -> (r: String)
    ensures
        r@ == prefix@ + plugin_id@ + "."@ + deployment_name(kind),
{
    let mut id = String::from_str(prefix);
    id.append(plugin_id);
    id.append(".");
    id.append(deployment_text(kind));
    id
}

pub open spec fn has_extension(list: Seq<HostExtensionDescriptor>, id: Seq<char>) -> bool {
    exists|i: int| 0 <= i < list.len() && (#[trigger] list[i]).extension_id@ == id
}

pub open spec fn has_backend(list: Seq<PluginBackendDescriptor>, id: Seq<char>) -> bool {
    exists|i: int| 0 <= i < list.len() && (#[trigger] list[i]).backend_id@ == id
}

pub open spec fn has_codec(list: Seq<CodecDescriptor>, id: Seq<char>) -> bool {
    exists|i: int| 0 <= i < list.len() && (#[trigger] list[i]).codec_id@ == id
}

pub open spec fn has_bridge(list: Seq<BridgeDescriptor>, id: Seq<char>) -> bool {
    exists|i: int| 0 <= i < list.len() && (#[trigger] list[i]).bridge_id@ == id
}

/// The host extension declared for `plugin_id`'s backend.
pub open spec fn declared_extension(d: HostExtensionDescriptor, plugin_id: Seq<char>, kind: PluginDeploymentKind) -> bool {
    &&& d.extension_id@ == extension_id(plugin_id, kind)
    &&& d.kind == HostExtensionKind::PluginBackend
    &&& d.supported_deployments@ == seq![kind]
    &&& d.reload_policy@ == "static"@
    &&& !d.drain_required
}

/// The plugin backend declared for `plugin_id`; an ABI backend names the ABI codec
/// and bridge.
pub open spec fn declared_backend(
    d: PluginBackendDescriptor,
    plugin_id: Seq<char>,
    kind: PluginDeploymentKind,
    abi: AbiTransport,
) -> bool {
    &&& d.backend_id@ == backend_id(plugin_id, kind)
    &&& d.deployment_kind == kind
    &&& d.task_client_protocol@ == "mutsuki.task.v1"@
    &&& d.resource_client_protocol@ == "mutsuki.resource-plan.v1"@
    &&& (if kind is Abi { d.codec_id matches Some(c) && c@ == abi.codec_id@ } else { d.codec_id is None })
    &&& (if kind is Abi { d.bridge_id matches Some(b) && b@ == abi.bridge_id@ } else { d.bridge_id is None })
}

pub open spec fn declared_codec(d: CodecDescriptor, abi: AbiTransport) -> bool {
    &&& d.codec_id@ == abi.codec_id@
    &&& d.media_type@ == "application/msgpack"@
    &&& d.version@ == crate::text::decimal_chars(abi.transport_version as nat)
    &&& d.connection_scoped
}

pub open spec fn declared_bridge(d: BridgeDescriptor, abi: AbiTransport) -> bool {
    &&& d.bridge_id@ == abi.bridge_id@
    &&& d.deployment_kind == PluginDeploymentKind::Abi
    &&& d.codec_ids@.len() == 1
    &&& d.codec_ids@[0]@ == abi.codec_id@
    &&& d.drain_policy@ == "drain_and_swap"@
}

/// `new` is `old`, or `old` with one more item that `added` accepts, by whether
/// `present` held.
pub open spec fn kept_or_added<T>(old: Seq<T>, new: Seq<T>, present: bool, added: spec_fn(T) -> bool) -> bool {
    if present {
        new == old
    } else {
        new.len() == old.len() + 1 && new.take(old.len() as int) == old && added(new.last())
    }
}

/// Everything the backend declaration adds is present: nothing is left to add.
pub open spec fn backend_declared(p: Provides, plugin_id: Seq<char>, kind: PluginDeploymentKind, abi: AbiTransport) -> bool {
    p.runner_ids@.len() == 0 || (has_extension(p.host_extensions@, extension_id(plugin_id, kind))
        && has_backend(p.plugin_backends@, backend_id(plugin_id, kind)) && (kind is Abi ==> has_codec(
        p.codecs@,
        abi.codec_id@,
    ) && has_bridge(p.bridges@, abi.bridge_id@)))
}

fn find_extension(list: &Vec<HostExtensionDescriptor>, id: &str) -> (r: bool)
    ensures
        r == has_extension(list@, id@),
{
    let mut i: usize = 0;
    while i < list.len()
        invariant
            i <= list@.len(),
            forall|j: int| 0 <= j < i ==> (#[trigger] list@[j]).extension_id@ != id@,
        decreases list@.len() - i,
    {
        if str_eq(list[i].extension_id.as_str(), id) {
            return true;
        }
        i = i + 1;
    }
    false
}

fn find_backend(list: &Vec<PluginBackendDescriptor>, id: &str) -> (r: bool)
    ensures
        r == has_backend(list@, id@),
{
    let mut i: usize = 0;
    while i < list.len()
        invariant
            i <= list@.len(),
            forall|j: int| 0 <= j < i ==> (#[trigger] list@[j]).backend_id@ != id@,
        decreases list@.len() - i,
    {
        if str_eq(list[i].backend_id.as_str(), id) {
            return true;
        }
        i = i + 1;
    }
    false
}

fn find_codec(list: &Vec<CodecDescriptor>, id: &str) -> (r: bool)
    ensures
        r == has_codec(list@, id@),
{
    let mut i: usize = 0;
    while i < list.len()
        invariant
            i <= list@.len(),
            forall|j: int| 0 <= j < i ==> (#[trigger] list@[j]).codec_id@ != id@,
        decreases list@.len() - i,
    {
        if str_eq(list[i].codec_id.as_str(), id) {
            return true;
        }
        i = i + 1;
    }
    false
}

fn find_bridge(list: &Vec<BridgeDescriptor>, id: &str) -> (r: bool)
    ensures
        r == has_bridge(list@, id@),
{
    let mut i: usize = 0;
    while i < list.len()
        invariant
            i <= list@.len(),
            forall|j: int| 0 <= j < i ==> (#[trigger] list@[j]).bridge_id@ != id@,
        decreases list@.len() - i,
    {
        if str_eq(list[i].bridge_id.as_str(), id) {
            return true;
        }
        i = i + 1;
    }
    false
}

/// Declares the backend of a plugin that has runners: the host extension and the
/// plugin backend for its deployment, and for an ABI plugin the ABI codec and
/// bridge, each only where it is not declared yet. A plugin without runners is
/// left as it is, and so is one whose backend is already declared: a second
/// application changes nothing.
pub fn ensure_plugin_backend(
    provides: &mut Provides,
    plugin_id: &str,
    deployment: PluginDeploymentKind,
    abi: &AbiTransport,
)
    ensures
        old(provides).runner_ids@.len() == 0 ==> *final(provides) == *old(provides),
        backend_declared(*old(provides), plugin_id@, deployment, *abi) ==> *final(provides) == *old(provides),
        backend_declared(*final(provides), plugin_id@, deployment, *abi),
        final(provides).runner_ids == old(provides).runner_ids,
        old(provides).runner_ids@.len() != 0 ==> {
            &&& kept_or_added(
                old(provides).host_extensions@,
                final(provides).host_extensions@,
                has_extension(old(provides).host_extensions@, extension_id(plugin_id@, deployment)),
                |d: HostExtensionDescriptor| declared_extension(d, plugin_id@, deployment),
            )
            &&& kept_or_added(
                old(provides).plugin_backends@,
                final(provides).plugin_backends@,
                has_backend(old(provides).plugin_backends@, backend_id(plugin_id@, deployment)),
                |d: PluginBackendDescriptor| declared_backend(d, plugin_id@, deployment, *abi),
            )
            &&& kept_or_added(
                old(provides).codecs@,
                final(provides).codecs@,
                !(deployment is Abi) || has_codec(old(provides).codecs@, abi.codec_id@),
                |d: CodecDescriptor| declared_codec(d, *abi),
            )
            &&& kept_or_added(
                old(provides).bridges@,
                final(provides).bridges@,
                !(deployment is Abi) || has_bridge(old(provides).bridges@, abi.bridge_id@),
                |d: BridgeDescriptor| declared_bridge(d, *abi),
            )
        },
{
    if provides.runner_ids.len() == 0 {
        return;
    }
    let ghost before = *provides;
    let ext_id = scoped_id("host.extension.", plugin_id, deployment);
    let back_id = scoped_id("plugin.backend.", plugin_id, deployment);
    let is_abi = match deployment {
        PluginDeploymentKind::Abi => true,
        _ => false,
    };
    if !find_extension(&provides.host_extensions, ext_id.as_str()) {
        let mut supported: Vec<PluginDeploymentKind> = Vec::new();
        supported.push(deployment);
        assert(supported@ =~= seq![deployment]);
        let ghost prior = provides.host_extensions@;
        provides.host_extensions.push(
            HostExtensionDescriptor {
                extension_id: ext_id,
                kind: HostExtensionKind::PluginBackend,
                supported_deployments: supported,
                reload_policy: String::from_str("static"),
                drain_required: false,
            },
        );
        assert(provides.host_extensions@.take(prior.len() as int) =~= prior);
        assert(has_extension(provides.host_extensions@, extension_id(plugin_id@, deployment))) by {
            assert(provides.host_extensions@[prior.len() as int].extension_id@ == extension_id(plugin_id@, deployment));
        }
    }
    if !find_backend(&provides.plugin_backends, back_id.as_str()) {
        let codec_id = if is_abi {
            Some(abi.codec_id.clone())
        } else {
            None
        };
        let bridge_id = if is_abi {
            Some(abi.bridge_id.clone())
        } else {
            None
        };
        let ghost prior = provides.plugin_backends@;
        provides.plugin_backends.push(
            PluginBackendDescriptor {
                backend_id: back_id,
                deployment_kind: deployment,
                task_client_protocol: String::from_str("mutsuki.task.v1"),
                resource_client_protocol: String::from_str("mutsuki.resource-plan.v1"),
                codec_id,
                bridge_id,
            },
        );
        assert(provides.plugin_backends@.take(prior.len() as int) =~= prior);
        assert(has_backend(provides.plugin_backends@, backend_id(plugin_id@, deployment))) by {
            assert(provides.plugin_backends@[prior.len() as int].backend_id@ == backend_id(plugin_id@, deployment));
        }
    }
    if is_abi {
        if !find_codec(&provides.codecs, abi.codec_id.as_str()) {
            let ghost prior = provides.codecs@;
            provides.codecs.push(
                CodecDescriptor {
                    codec_id: abi.codec_id.clone(),
                    media_type: String::from_str("application/msgpack"),
                    version: crate::text::decimal(abi.transport_version as u64),
                    connection_scoped: true,
                },
            );
            assert(provides.codecs@.take(prior.len() as int) =~= prior);
            assert(has_codec(provides.codecs@, abi.codec_id@)) by {
                assert(provides.codecs@[prior.len() as int].codec_id@ == abi.codec_id@);
            }
        }
        if !find_bridge(&provides.bridges, abi.bridge_id.as_str()) {
            let mut codec_ids: Vec<String> = Vec::new();
            codec_ids.push(abi.codec_id.clone());
            let ghost prior = provides.bridges@;
            provides.bridges.push(
                BridgeDescriptor {
                    bridge_id: abi.bridge_id.clone(),
                    deployment_kind: PluginDeploymentKind::Abi,
                    codec_ids,
                    drain_policy: String::from_str("drain_and_swap"),
                },
            );
            assert(provides.bridges@.take(prior.len() as int) =~= prior);
            assert(has_bridge(provides.bridges@, abi.bridge_id@)) by {
                assert(provides.bridges@[prior.len() as int].bridge_id@ == abi.bridge_id@);
            }
        }
    }
}

} // verus!
