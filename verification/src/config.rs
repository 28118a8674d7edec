//! The configuration model: the named ports to watch.

use vstd::prelude::*;

verus! {

/// Where the configuration file is read from unless the command line says
/// otherwise.
pub const DEFAULT_CONFIG_PATH: &'static str = "/opt/port_exporter.yaml";

/// The port the exporter listens on unless the command line says
/// otherwise.
pub const DEFAULT_PORT: &'static str = "9099";

/// One monitored service: a label and the TCP port it listens on.
#[derive(Debug)]
pub struct Target {
    /// Human label of the service.
    pub name: String,
    /// Port on the loopback interface. Not validated: a port outside
    /// 1..=65535 simply never answers.
    pub port: u64,
}

/// What a [`Target`] stands for in contracts.
pub ghost struct TargetView {
    pub name: Seq<char>,
    pub port: nat,
}

impl View for Target {
    type V = TargetView;

    open spec fn view(&self) -> TargetView {
        TargetView { name: self.name@, port: self.port as nat }
    }
}

impl Clone for Target {
    fn clone(&self) -> (copy: Self)
        ensures
            copy@ == self@,
    {
        Target { name: self.name.clone(), port: self.port }
    }
}

/// The full set of targets, in the order they were configured.
#[derive(Debug)]
pub struct Config {
    /// The targets.
    pub ports: Vec<Target>,
}

impl View for Config {
    type V = Seq<TargetView>;

    open spec fn view(&self) -> Seq<TargetView> {
        Seq::new(self.ports@.len(), |i: int| self.ports@[i]@)
    }
}

} // verus!
