//! The deployment-descriptor document: a stack of components with
//! their mounts and constraints.  The pipeline engine does not
//! interpret these values; they are carried for hosts that do.

use vstd::prelude::*;

use crate::json::JsonValue;

verus! {

/// The root of a descriptor document.
#[derive(Debug, PartialEq)]
pub struct Root {
    pub name: String,
    pub version: Option<String>,
    pub license: Option<String>,
    pub homepage: Option<String>,
    pub repo: Option<String>,
    pub authors: Vec<String>,
    pub verman: VermanConfig,
    pub stack: Vec<(String, Vec<ServerConfiguration>)>,
    pub stack_state: Vec<(String, StateValues)>,
    pub stack_routing: Vec<ProtocolConfiguration>,
    pub component: Vec<Component>,
    pub env_vars: Option<Vec<(String, String)>>,
}

/// Engine-level settings of a descriptor.
#[derive(Debug, PartialEq)]
pub struct VermanConfig {
    /// The default script language line, used when a script carries no
    /// shebang of its own.
    pub shell: String,
}

impl Default for VermanConfig {
    /// The jq language line.
    fn default() -> (r: Self)
        ensures
            r.shell@ == "#!/jq"@,
    {
        VermanConfig { shell: String::from_str("#!/jq") }
    }
}

/// The name a descriptor gets when it does not give one.
pub fn default_name() -> (r: String)
    ensures
        r@ == "verman-root"@,
{
    String::from_str("verman-root")
}

/// The wanted state of one stack element.
#[derive(Debug, PartialEq)]
pub struct StateValues {
    pub kind: Option<String>,
    pub install: Option<State>,
    pub remove: Option<State>,
    pub start: Option<State>,
    pub stop: Option<State>,
}

/// What should happen to an app, component or service.
#[derive(Debug, PartialEq, Eq, Structural, Clone, Copy)]
pub enum State {
    /// Install or reinstall; start or restart.
    Always,
    /// Install only when absent; reload when stopped, else start.
    Graceful,
    /// Use what is there; fail when nothing of the kind is found.
    Untouched,
    /// Stop the service when it runs.
    Stop,
    /// Uninstall.
    Remove,
    /// Only list what would happen.
    DryRun,
}

impl Default for State {
    /// Leave things as they are.
    fn default() -> (r: Self)
        ensures
            r == State::Untouched,
    {
        State::Untouched
    }
}

/// One server that may carry a stack element.
#[derive(Debug, PartialEq)]
pub struct ServerConfiguration {
    pub kind: String,
    pub versions: Option<Vec<String>>,
    pub server_priority: Option<Vec<String>>,
    pub env_vars: Option<Vec<(String, String)>>,
}

/// How a stack is reached from outside.
#[derive(Debug, PartialEq)]
pub struct ProtocolConfiguration {
    pub name: Option<String>,
    pub protocol: Option<String>,
    pub certificate_vendor: Option<String>,
}

/// One deployable part of the stack.
#[derive(Debug, PartialEq)]
pub struct Component {
    pub src_uri: Option<String>,
    pub dst_uri: Option<String>,
    pub constraints: Vec<Constraint>,
    pub env_vars: Option<Vec<(String, String)>>,
    pub mounts: Option<Vec<Mount>>,
}

/// A route or action a component exposes, guarded by a condition.
#[derive(Debug, PartialEq)]
pub struct Mount {
    pub when: String,
    pub uri: Option<String>,
    pub src_uri: Option<String>,
    pub action: String,
    pub action_args: Option<JsonValue>,
}

/// A requirement a component places on its surroundings.
#[derive(Debug, PartialEq)]
pub struct Constraint {
    pub kind: String,
    pub required_variant: Option<String>,
    pub required_version: Option<String>,
}

/// The operating systems a constraint may name.
#[derive(Debug, PartialEq, Eq, Structural, Clone, Copy, Hash)]
pub enum Os {
    Linux,
    Macos,
    Ios,
    Freebsd,
    Dragonfly,
    Netbsd,
    Openbsd,
    Solaris,
    Android,
    Windows,
    /// Sometimes useful for all of them.
    Unspecified,
}

impl Default for Os {
    /// No particular system.
    fn default() -> (r: Self)
        ensures
            r == Os::Unspecified,
    {
        Os::Unspecified
    }
}

/// A vendor together with a wanted version.
#[derive(Debug, PartialEq)]
pub struct VendorVersion {
    pub vendor: Option<String>,
    pub version: Option<String>,
}

} // verus!
