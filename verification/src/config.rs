//! What is configured of a tunnel.
use vstd::prelude::*;

verus! {

/// The directory, below the home directory, that holds the configuration file.
pub const CONFIG_DIR: &'static str = ".config/stm15";

/// The name of the configuration file.
pub const CONFIG_FILE: &'static str = "tunnels.yaml";

/// The configuration of one tunnel.
#[derive(Debug)]
pub struct TunnelConfig {
    pub name: String,
    pub tunnel_type: String,
    pub local_port: u16,
    pub ssh_host: String,
    pub ssh_port: u16,
    pub ssh_user: String,
    pub ssh_key: String,
    pub remote_host: String,
    pub remote_port: u16,
    pub enabled: bool,
}

#[verifier::ext_equal]
pub struct TunnelConfigView {
    pub name: Seq<char>,
    pub tunnel_type: Seq<char>,
    pub local_port: u16,
    pub ssh_host: Seq<char>,
    pub ssh_port: u16,
    pub ssh_user: Seq<char>,
    pub ssh_key: Seq<char>,
    pub remote_host: Seq<char>,
    pub remote_port: u16,
    pub enabled: bool,
}

impl View for TunnelConfig {
    type V = TunnelConfigView;

    open spec fn view(&self) -> TunnelConfigView {
        TunnelConfigView {
            name: self.name@,
            tunnel_type: self.tunnel_type@,
            local_port: self.local_port,
            ssh_host: self.ssh_host@,
            ssh_port: self.ssh_port,
            ssh_user: self.ssh_user@,
            ssh_key: self.ssh_key@,
            remote_host: self.remote_host@,
            remote_port: self.remote_port,
            enabled: self.enabled,
        }
    }
}

impl Clone for TunnelConfig {
    fn clone(&self) -> (copy: Self)
        ensures
            copy == *self,
    {
        TunnelConfig {
            name: self.name.clone(),
            tunnel_type: self.tunnel_type.clone(),
            local_port: self.local_port,
            ssh_host: self.ssh_host.clone(),
            ssh_port: self.ssh_port,
            ssh_user: self.ssh_user.clone(),
            ssh_key: self.ssh_key.clone(),
            remote_host: self.remote_host.clone(),
            remote_port: self.remote_port,
            enabled: self.enabled,
        }
    }
}

/// The views of a sequence of configurations.
pub open spec fn config_views(configs: Seq<TunnelConfig>) -> Seq<TunnelConfigView> {
    configs.map_values(|c: TunnelConfig| c@)
}

// ── what a configuration file may leave out ─────────────────────────────────
/// The type of a tunnel whose type is not given.
pub fn default_type() -> (r: String)
    ensures
        r@ == "local"@,
{
    "local".to_string()
}

/// The port of an SSH server whose port is not given.
pub fn default_ssh_port() -> (r: u16)
    ensures
        r == 22,
{
    22
}

/// The remote host of a tunnel whose remote host is not given.
pub fn default_localhost() -> (r: String)
    ensures
        r@ == "localhost"@,
{
    "localhost".to_string()
}

/// Whether a tunnel is enabled where nothing is said of it.
pub fn default_true() -> (r: bool)
    ensures
        r,
{
    true
}

/// The views of configurations are those of each of them, in their order, and the
/// view of a configuration holds all that is configured.
pub proof fn a_view_holds_all_that_is_configured(configs: Seq<TunnelConfig>, i: int)
    ensures
        config_views(configs).len() == configs.len(),
        0 <= i < configs.len() ==> {
            let c = configs[i];
            let view = config_views(configs)[i];
            &&& view.name == c.name@ && view.tunnel_type == c.tunnel_type@
            &&& view.ssh_host == c.ssh_host@ && view.ssh_user == c.ssh_user@
            &&& view.ssh_key == c.ssh_key@ && view.remote_host == c.remote_host@
            &&& view.local_port == c.local_port && view.ssh_port == c.ssh_port
            &&& view.remote_port == c.remote_port && view.enabled == c.enabled
        },
{
}

} // verus!
