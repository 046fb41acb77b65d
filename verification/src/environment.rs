//! What the engine is started with: the arguments of the command line,
//! and the environment made from them.
use crate::text::{ascii_words, concat, decimal_i32, decimal_text, split_ascii_whitespace};
use vstd::prelude::*;

verus! {

/// The levels of the log.
#[derive(Debug, Copy, Clone, PartialEq, Eq, Structural)]
pub enum LogLevel {
    Disabled,
    Error,
    Warn,
    Notice,
    Info,
    Debug,
}

#[derive(Debug, PartialEq, Eq)]
pub struct MayastorCliArgs {
    /// IP address and port (optional) for the gRPC server to listen on.
    pub grpc_endpoint: String,
    /// Enable logging for sub components.
    pub log_components: Vec<String>,
    /// The reactor mask to be used for starting up the instance
    pub reactor_mask: String,
    /// Name of the node where mayastor is running (ID used by control plane)
    pub node_name: Option<String>,
    /// Hostname/IP and port (optional) of the message bus server.
    pub mbus_endpoint: Option<String>,
    /// The maximum amount of hugepage memory we are allowed to allocate in MiB
    /// a value of 0 means no limits.
    pub mem_size: i32,
    /// Disable the use of PCIe devices.
    pub no_pci: bool,
    /// Path to create the rpc socket.
    pub rpc_address: String,
    /// Path to mayastor YAML config file.
    pub mayastor_config: Option<String>,
    /// Path to child status config file.
    pub child_status_config: Option<String>,
    /// Path to hugedir.
    pub hugedir: Option<String>,
    /// Pass additional arguments to the EAL environment.
    pub env_context: Option<String>,
    /// List of cores to run on instead of using the core mask. When specified
    /// it supersedes the core mask (-m) argument.
    pub core_list: Option<String>,
}

/// Mayastor argument
#[derive(Debug, PartialEq, Eq)]
pub struct MayastorEnvironment {
    pub node_name: String,
    pub mbus_endpoint: Option<String>,
    pub grpc_endpoint: Option<String>,
    pub mayastor_config: Option<String>,
    pub child_status_config: Option<String>,
    pub delay_subsystem_init: bool,
    pub enable_coredump: bool,
    pub env_context: Option<String>,
    pub hugedir: Option<String>,
    pub hugepage_single_segments: bool,
    pub json_config_file: Option<String>,
    pub master_core: i32,
    pub mem_channel: i32,
    pub mem_size: i32,
    pub name: String,
    pub no_pci: bool,
    pub num_entries: u64,
    pub num_pci_addr: usize,
    pub print_level: LogLevel,
    pub debug_level: LogLevel,
    pub reactor_mask: String,
    pub rpc_addr: String,
    pub shm_id: i32,
    pub tpoint_group_mask: String,
    pub unlink_hugepage: bool,
    pub log_component: Vec<String>,
    pub core_list: Option<String>,
}

/// The states of a reactor.
#[derive(Debug, Copy, Clone, PartialEq, Eq, Structural)]
pub enum ReactorState {
    Init,
    Running,
    Shutdown,
    Delayed,
}

/// Whether a signal to shut down was received already.
#[derive(Debug, Copy, Clone, PartialEq, Eq, Structural)]
pub struct SignalGate {
    pub received: bool,
}

impl SignalGate {
    /// A gate that no signal has come to.
    pub fn new() -> (gate: SignalGate)
        ensures
            !gate.received,
    {
        SignalGate { received: false }
    }

    /// called on SIGINT and SIGTERM
    ///
    /// Says whether the shutdown is to be asked for: for the first signal
    /// only.
    pub fn mayastor_signal_handler(&mut self) -> (shutdown: bool)
        ensures
            shutdown == !old(self).received,
            final(self).received,
    {
        if self.received {
            return false;
        }
        self.received = true;
        true
    }
}

/// main shutdown routine for mayastor
///
/// Says whether the master reactor takes the request to shut down: one
/// that has shut down already does not.
pub fn mayastor_env_stop(state: ReactorState) -> (accepted: bool)
    ensures
        accepted == (state != ReactorState::Shutdown),
{
    match state {
        ReactorState::Running | ReactorState::Delayed | ReactorState::Init => true,
        ReactorState::Shutdown => false,
    }
}

/// The text of an optional text, if there is one.
pub open spec fn text_of(text: Option<String>) -> Option<Seq<char>> {
    match text {
        Some(text) => Some(text@),
        None => None,
    }
}

/// A copy of an optional text.
pub fn copy_of(text: &Option<String>) -> (copy: Option<String>)
    ensures
        text_of(copy) == text_of(*text),
{
    match text {
        Some(text) => Some(text.clone()),
        None => None,
    }
}

/// Defaults are redefined here in case of using it during tests
impl Default for MayastorCliArgs {
    fn default() -> (args: MayastorCliArgs)
        ensures
            args.grpc_endpoint@ == "0.0.0.0:10124"@,
            args.mbus_endpoint is None,
            args.node_name is None,
            args.env_context is None,
            args.reactor_mask@ == "0x1"@,
            args.mem_size == 0,
            args.rpc_address@ == "/var/tmp/mayastor.sock"@,
            args.no_pci,
            args.log_components@.len() == 0,
            args.mayastor_config is None,
            args.child_status_config is None,
            args.hugedir is None,
            args.core_list is None,
    {
        MayastorCliArgs {
            grpc_endpoint: "0.0.0.0:10124".to_owned(),
            mbus_endpoint: None,
            node_name: None,
            env_context: None,
            reactor_mask: "0x1".to_owned(),
            mem_size: 0,
            rpc_address: "/var/tmp/mayastor.sock".to_owned(),
            no_pci: true,
            log_components: Vec::new(),
            mayastor_config: None,
            child_status_config: None,
            hugedir: None,
            core_list: None,
        }
    }
}

impl Default for MayastorEnvironment {
    fn default() -> (env: MayastorEnvironment)
        ensures
            env.is_default(),
    {
        MayastorEnvironment {
            node_name: "mayastor-node".to_owned(),
            mbus_endpoint: None,
            grpc_endpoint: None,
            mayastor_config: None,
            child_status_config: None,
            delay_subsystem_init: false,
            enable_coredump: true,
            env_context: None,
            hugedir: None,
            hugepage_single_segments: false,
            json_config_file: None,
            master_core: -1,
            mem_channel: -1,
            mem_size: -1,
            name: "mayastor".to_owned(),
            no_pci: false,
            num_entries: 0,
            num_pci_addr: 0,
            print_level: LogLevel::Info,
            debug_level: LogLevel::Info,
            reactor_mask: "0x1".to_owned(),
            rpc_addr: "/var/tmp/mayastor.sock".to_owned(),
            shm_id: -1,
            tpoint_group_mask: String::new(),
            unlink_hugepage: true,
            log_component: Vec::new(),
            core_list: None,
        }
    }
}

/// The arguments that end every list of arguments for the EAL but for
/// the cores: the log levels of the DPDK libraries, and the matching of
/// allocations.
pub open spec fn eal_tail() -> Seq<Seq<char>> {
    seq![
        "--log-level=lib.eal:6"@,
        "--log-level=lib.cryptodev:5"@,
        "--log-level=user1:6"@,
        "--match-allocations"@,
    ]
}

impl MayastorEnvironment {
    /// What is the same in every environment that was not told
    /// otherwise.
    pub open spec fn is_default(self) -> bool {
        &&& self.node_name@ == "mayastor-node"@
        &&& self.mbus_endpoint is None
        &&& self.grpc_endpoint is None
        &&& self.mayastor_config is None
        &&& self.child_status_config is None
        &&& self.env_context is None
        &&& self.hugedir is None
        &&& self.mem_size == -1
        &&& self.no_pci == false
        &&& self.reactor_mask@ == "0x1"@
        &&& self.rpc_addr@ == "/var/tmp/mayastor.sock"@
        &&& self.log_component@.len() == 0
        &&& self.core_list is None
        &&& self.fixed()
    }

    /// What no argument of the command line changes.
    pub open spec fn fixed(self) -> bool {
        &&& !self.delay_subsystem_init
        &&& self.enable_coredump
        &&& !self.hugepage_single_segments
        &&& self.json_config_file is None
        &&& self.master_core == -1
        &&& self.mem_channel == -1
        &&& self.name@ == "mayastor"@
        &&& self.num_entries == 0
        &&& self.num_pci_addr == 0
        &&& self.print_level == LogLevel::Info
        &&& self.debug_level == LogLevel::Info
        &&& self.shm_id == -1
        &&& self.tpoint_group_mask@.len() == 0
        &&& self.unlink_hugepage
    }

    /// The environment for the arguments of the command line.
    pub fn new(args: MayastorCliArgs) -> (env: MayastorEnvironment)
        ensures
            env.fixed(),
            env.grpc_endpoint matches Some(endpoint) && endpoint == args.grpc_endpoint,
            env.mbus_endpoint == args.mbus_endpoint,
            env.node_name@ == match args.node_name {
                Some(name) => name@,
                None => "mayastor-node"@,
            },
            env.mayastor_config == args.mayastor_config,
            env.child_status_config == args.child_status_config,
            env.log_component == args.log_components,
            env.mem_size == args.mem_size,
            env.no_pci == args.no_pci,
            env.reactor_mask == args.reactor_mask,
            env.rpc_addr == args.rpc_address,
            env.hugedir == args.hugedir,
            env.env_context == args.env_context,
            env.core_list == args.core_list,
    {
        let defaults = MayastorEnvironment::default();
        MayastorEnvironment {
            grpc_endpoint: Some(args.grpc_endpoint),
            mbus_endpoint: args.mbus_endpoint,
            node_name: match args.node_name {
                Some(name) => name,
                None => "mayastor-node".to_owned(),
            },
            mayastor_config: args.mayastor_config,
            child_status_config: args.child_status_config,
            log_component: args.log_components,
            mem_size: args.mem_size,
            no_pci: args.no_pci,
            reactor_mask: args.reactor_mask,
            rpc_addr: args.rpc_address,
            hugedir: args.hugedir,
            env_context: args.env_context,
            core_list: args.core_list,
            delay_subsystem_init: defaults.delay_subsystem_init,
            enable_coredump: defaults.enable_coredump,
            hugepage_single_segments: defaults.hugepage_single_segments,
            json_config_file: defaults.json_config_file,
            master_core: defaults.master_core,
            mem_channel: defaults.mem_channel,
            name: defaults.name,
            num_entries: defaults.num_entries,
            num_pci_addr: defaults.num_pci_addr,
            print_level: defaults.print_level,
            debug_level: defaults.debug_level,
            shm_id: defaults.shm_id,
            tpoint_group_mask: defaults.tpoint_group_mask,
            unlink_hugepage: defaults.unlink_hugepage,
        }
    }

    /// Raises the levels of the log where logging is asked for for some
    /// component.
    pub fn init_logger(&mut self)
        ensures
            final(self).debug_level == if old(self).log_component@.len() > 0 {
                LogLevel::Debug
            } else {
                old(self).debug_level
            },
            final(self).print_level == if old(self).log_component@.len() > 0 {
                LogLevel::Debug
            } else {
                old(self).print_level
            },
            final(self).log_component == old(self).log_component,
    {
        // if log flags are specified increase the loglevel and print level.
        if self.log_component.len() > 0 {
            self.debug_level = LogLevel::Debug;
            self.print_level = LogLevel::Debug;
        }
    }

    /// The options for the EAL that say how memory is had.
    pub open spec fn eal_memory(self) -> Seq<Seq<char>> {
        optional(self.mem_channel > 0, "-n "@ + decimal_text(self.mem_channel as int)) + optional(
            self.shm_id < 0,
            "--no-shconf"@,
        ) + optional(self.mem_size >= 0, "-m "@ + decimal_text(self.mem_size as int))
    }

    /// The options for the EAL that say which devices and pages are
    /// used.
    pub open spec fn eal_devices(self, linux: bool) -> Seq<Seq<char>> {
        optional(self.master_core > 0, "--master-lcore="@ + decimal_text(self.master_core as int))
            + optional(self.no_pci, "--no-pci"@) + optional(
            self.hugepage_single_segments,
            "--single-file-segments"@,
        ) + (match self.hugedir {
            Some(dir) => seq!["--huge-dir="@ + dir@],
            None => seq![],
        }) + optional(linux, "--base-virtaddr=0x200000000000"@)
    }

    /// The options for the EAL that tell processes apart.
    pub open spec fn eal_process(self, pid: i32) -> Seq<Seq<char>> {
        (if self.shm_id < 0 {
            seq!["--file-prefix=mayastor_pid"@ + decimal_text(pid as int)]
        } else {
            seq![
                "--file-prefix=mayastor_pid"@ + decimal_text(self.shm_id as int),
                "--proc-type=auto"@,
            ]
        }) + optional(self.unlink_hugepage, "--huge-unlink"@)
    }

    /// The options for the EAL that say which cores to run on: the list
    /// of cores if there is one, else the mask.
    pub open spec fn eal_cores(self) -> Seq<Seq<char>> {
        match self.core_list {
            Some(list) => seq!["-l "@ + list@],
            None => seq!["-c "@ + self.reactor_mask@],
        }
    }

    /// The options for the EAL, one after the other; `pid` is the number
    /// of the process, `linux` whether the system is Linux. First the
    /// name, then what the environment says of memory, devices and
    /// process, then the levels of the log, then the words of the
    /// additional context, which are not looked at, and last the cores.
    pub open spec fn eal_args(self, pid: i32, linux: bool) -> Seq<Seq<char>> {
        seq![self.name@] + self.eal_memory() + self.eal_devices(linux) + self.eal_process(pid)
            + eal_tail() + (match self.env_context {
            Some(context) => ascii_words(context@),
            None => seq![],
        }) + self.eal_cores()
    }

    /// The options on memory.
    fn memory_args(&self) -> (args: Vec<String>)
        ensures
            texts(args@) == self.eal_memory(),
    {
        let mut args: Vec<String> = Vec::new();
        if self.mem_channel > 0 {
            args.push(concat("-n ", decimal_i32(self.mem_channel).as_str()));
        }
        let ghost first = texts(args@);
        assert(first =~= optional(
            self.mem_channel > 0,
            "-n "@ + decimal_text(self.mem_channel as int),
        ));
        if self.shm_id < 0 {
            args.push("--no-shconf".to_owned());
        }
        let ghost second = texts(args@);
        assert(second =~= first + optional(self.shm_id < 0, "--no-shconf"@));
        if self.mem_size >= 0 {
            args.push(concat("-m ", decimal_i32(self.mem_size).as_str()));
        }
        assert(texts(args@) =~= second + optional(
            self.mem_size >= 0,
            "-m "@ + decimal_text(self.mem_size as int),
        ));
        args
    }

    /// The options on devices and pages.
    fn device_args(&self, linux: bool) -> (args: Vec<String>)
        ensures
            texts(args@) == self.eal_devices(linux),
    {
        let mut args: Vec<String> = Vec::new();
        if self.master_core > 0 {
            args.push(concat("--master-lcore=", decimal_i32(self.master_core).as_str()));
        }
        let ghost first = texts(args@);
        assert(first =~= optional(
            self.master_core > 0,
            "--master-lcore="@ + decimal_text(self.master_core as int),
        ));
        if self.no_pci {
            args.push("--no-pci".to_owned());
        }
        let ghost second = texts(args@);
        assert(second =~= first + optional(self.no_pci, "--no-pci"@));
        if self.hugepage_single_segments {
            args.push("--single-file-segments".to_owned());
        }
        let ghost third = texts(args@);
        assert(third =~= second + optional(
            self.hugepage_single_segments,
            "--single-file-segments"@,
        ));
        if let Some(dir) = &self.hugedir {
            args.push(concat("--huge-dir=", dir.as_str()));
        }
        let ghost fourth = texts(args@);
        assert(fourth =~= third + (match self.hugedir {
            Some(dir) => seq!["--huge-dir="@ + dir@],
            None => seq![],
        }));
        if linux {
            // Ref: https://github.com/google/sanitizers/wiki/AddressSanitizerAlgorithm
            args.push("--base-virtaddr=0x200000000000".to_owned());
        }
        assert(texts(args@) =~= fourth + optional(linux, "--base-virtaddr=0x200000000000"@));
        args
    }

    /// The options that tell processes apart.
    fn process_args(&self, pid: i32) -> (args: Vec<String>)
        ensures
            texts(args@) == self.eal_process(pid),
    {
        let mut args: Vec<String> = Vec::new();
        if self.shm_id < 0 {
            args.push(concat("--file-prefix=mayastor_pid", decimal_i32(pid).as_str()));
        } else {
            args.push(concat("--file-prefix=mayastor_pid", decimal_i32(self.shm_id).as_str()));
            args.push("--proc-type=auto".to_owned());
        }
        let ghost first = texts(args@);
        assert(first =~= (if self.shm_id < 0 {
            seq!["--file-prefix=mayastor_pid"@ + decimal_text(pid as int)]
        } else {
            seq![
                "--file-prefix=mayastor_pid"@ + decimal_text(self.shm_id as int),
                "--proc-type=auto"@,
            ]
        }));
        if self.unlink_hugepage {
            args.push("--huge-unlink".to_owned());
        }
        assert(texts(args@) =~= first + optional(self.unlink_hugepage, "--huge-unlink"@));
        args
    }

    /// construct an array of options to be passed to EAL
    pub fn initialize_eal(&self, pid: i32, linux: bool) -> (args: Vec<String>)
        ensures
            texts(args@) == self.eal_args(pid, linux),
    {
        let mut args: Vec<String> = Vec::new();
        args.push(self.name.clone());
        let ghost name = texts(args@);
        assert(name =~= seq![self.name@]);
        let mut memory = self.memory_args();
        args.append(&mut memory);
        let ghost first = texts(args@);
        assert(first =~= name + self.eal_memory());
        let mut devices = self.device_args(linux);
        args.append(&mut devices);
        let ghost second = texts(args@);
        assert(second =~= first + self.eal_devices(linux));
        let mut process = self.process_args(pid);
        args.append(&mut process);
        let ghost third = texts(args@);
        assert(third =~= second + self.eal_process(pid));
        // set the log levels of the DPDK libs, this can be overridden by
        // setting env_context
        args.push("--log-level=lib.eal:6".to_owned());
        args.push("--log-level=lib.cryptodev:5".to_owned());
        args.push("--log-level=user1:6".to_owned());
        args.push("--match-allocations".to_owned());
        let ghost fourth = texts(args@);
        assert(fourth =~= third + eal_tail());
        // any additional parameters we want to pass down to the eal. These
        // arguments are not checked or validated.
        if let Some(context) = &self.env_context {
            let mut words = split_ascii_whitespace(context.as_str());
            let ghost extra = texts(words@);
            args.append(&mut words);
            assert(texts(args@) =~= fourth + extra);
        }
        let ghost fifth = texts(args@);
        assert(fifth =~= fourth + (match self.env_context {
            Some(context) => ascii_words(context@),
            None => seq![],
        }));
        // when -l is specified it overrules the core mask. The core mask still
        // carries our default of 0x1 such that existing testing code
        // does not require any changes.
        if let Some(list) = &self.core_list {
            args.push(concat("-l ", list.as_str()));
        } else {
            args.push(concat("-c ", self.reactor_mask.as_str()));
        }
        assert(texts(args@) =~= fifth + self.eal_cores());
        args
    }
}

/// The texts of a list of strings.
pub open spec fn texts(args: Seq<String>) -> Seq<Seq<char>> {
    args.map_values(|arg: String| arg@)
}

/// The one argument `text` if `given`, else none.
pub open spec fn optional(given: bool, text: Seq<char>) -> Seq<Seq<char>> {
    if given {
        seq![text]
    } else {
        seq![]
    }
}

} // verus!
