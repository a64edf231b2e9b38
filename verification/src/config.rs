//! The settings of the launcher and the data that it keeps between runs.

use crate::client::{executable_views, ExecutableView, Q3Executable};
use crate::master::{known_masters, master_views, MasterServer, MasterView};
use crate::text_set::TextSet;
use vstd::prelude::*;

verus! {

/// What the settings are, as plain values.
pub struct ConfigView {
    pub path: Seq<char>,
    pub welcome_message: bool,
    pub server_browser_threads: usize,
    pub server_timeout: u16,
    pub show_unreachable: bool,
    pub manage_q3_instance: bool,
    pub refresh_by_mod: bool,
    pub show_trashed_servers: bool,
    pub autoclose_demo: bool,
    pub loop_demo: bool,
    pub q3_clients: Seq<ExecutableView>,
}

/// The settings of the launcher.
#[derive(Clone, Debug)]
pub struct Config {
    pub path: String,
    pub welcome_message: bool,
    pub server_browser_threads: usize,
    pub server_timeout: u16,
    pub show_unreachable: bool,
    pub manage_q3_instance: bool,
    pub refresh_by_mod: bool,
    pub show_trashed_servers: bool,
    pub autoclose_demo: bool,
    pub loop_demo: bool,
    pub q3_clients: Vec<Q3Executable>,
}

impl View for Config {
    type V = ConfigView;

    open spec fn view(&self) -> ConfigView {
        ConfigView {
            path: self.path@,
            welcome_message: self.welcome_message,
            server_browser_threads: self.server_browser_threads,
            server_timeout: self.server_timeout,
            show_unreachable: self.show_unreachable,
            manage_q3_instance: self.manage_q3_instance,
            refresh_by_mod: self.refresh_by_mod,
            show_trashed_servers: self.show_trashed_servers,
            autoclose_demo: self.autoclose_demo,
            loop_demo: self.loop_demo,
            q3_clients: executable_views(self.q3_clients@),
        }
    }
}

/// The settings that a first start begins with.
pub open spec fn default_config(path: Seq<char>) -> ConfigView {
    ConfigView {
        path,
        welcome_message: true,
        server_browser_threads: 50,
        server_timeout: 300,
        show_unreachable: false,
        manage_q3_instance: true,
        refresh_by_mod: false,
        show_trashed_servers: true,
        autoclose_demo: true,
        loop_demo: false,
        q3_clients: Seq::empty(),
    }
}

impl Config {
    /// The settings that a first start begins with, to be kept at `path`.
    pub fn new(path: String) -> (config: Self)
        ensures
            config@ == default_config(path@),
    {
        let config = Self {
            path,
            welcome_message: true,
            server_browser_threads: 50,
            server_timeout: 300,
            show_unreachable: false,
            manage_q3_instance: true,
            refresh_by_mod: false,
            show_trashed_servers: true,
            autoclose_demo: true,
            loop_demo: false,
            q3_clients: Vec::new(),
        };
        assert(executable_views(config.q3_clients@) =~= Seq::<ExecutableView>::empty());
        config
    }
}

/// What the kept data is, as plain values.
pub struct AppDataView {
    pub path: Seq<char>,
    pub pinned: Set<Seq<char>>,
    pub custom: Set<Seq<char>>,
    pub trash: Set<Seq<char>>,
    pub trash_ip: Set<Seq<char>>,
    pub server_password: Seq<char>,
    pub masters: Seq<MasterView>,
}

/// The data that the launcher keeps between runs: the servers that the user
/// pinned, added or threw away, and the master servers.
#[derive(Clone, Debug)]
pub struct AppData {
    pub path: String,
    pub pinned: TextSet,
    pub custom: TextSet,
    pub trash: TextSet,
    pub trash_ip: TextSet,
    pub server_password: String,
    pub masters: Vec<MasterServer>,
}

impl View for AppData {
    type V = AppDataView;

    open spec fn view(&self) -> AppDataView {
        AppDataView {
            path: self.path@,
            pinned: self.pinned@,
            custom: self.custom@,
            trash: self.trash@,
            trash_ip: self.trash_ip@,
            server_password: self.server_password@,
            masters: master_views(self.masters@),
        }
    }
}

/// The data that a first start begins with.
pub open spec fn default_app_data(path: Seq<char>) -> AppDataView {
    AppDataView {
        path,
        pinned: Set::empty(),
        custom: Set::empty(),
        trash: Set::empty(),
        trash_ip: Set::empty(),
        server_password: Seq::empty(),
        masters: known_masters(),
    }
}

impl AppData {
    /// The data that a first start begins with, to be kept at `path`.
    pub fn new(path: String) -> (data: Self)
        ensures
            data@ == default_app_data(path@),
    {
        Self {
            path,
            pinned: TextSet::new(),
            custom: TextSet::new(),
            trash: TextSet::new(),
            trash_ip: TextSet::new(),
            masters: MasterServer::initial_masters(),
            server_password: String::new(),
        }
    }
}

} // verus!
