//! The closed set of typed instructions, the values they carry, and the
//! errors of the compilation pipeline.

use vstd::prelude::*;

verus! {

/// A root password: cleartext that still must be hashed, or a finished hash.
#[derive(Debug, Clone)]
pub enum RootPasswordType {
    Clear(String),
    Hash(String),
}

/// How one address family of a network adapter is configured.
#[derive(Debug, Clone)]
pub enum NetworkConfig {
    DHCP,
    DHCPStateful,
    DHCPStateless,
    Static(String),
}

/// The redundancy kind of a virtual device group.
#[derive(Debug, Clone, Copy, PartialEq, Eq, Structural)]
pub enum VDEVType {
    Empty,
    Mirror,
    RaidZ1,
    RaidZ2,
    RaidZ3,
}

impl Default for VDEVType {
    /// An untyped (single-disk) group.
    fn default() -> (r: Self)
        ensures
            r == VDEVType::Empty,
    {
        VDEVType::Empty
    }
}

impl VDEVType {
    /// The token naming this group kind on a pool-creation command line;
    /// the untyped kind has no token.
    pub fn to_string(&self) -> (r: String)
        ensures
            (match self {
                VDEVType::Empty => r@ == ""@,
                VDEVType::Mirror => r@ == "mirror"@,
                VDEVType::RaidZ1 => r@ == "raidz1"@,
                VDEVType::RaidZ2 => r@ == "raidz2"@,
                VDEVType::RaidZ3 => r@ == "raidz3"@,
            }),
    {
        match self {
            VDEVType::Empty => String::from_str(""),
            VDEVType::Mirror => String::from_str("mirror"),
            VDEVType::RaidZ1 => String::from_str("raidz1"),
            VDEVType::RaidZ2 => String::from_str("raidz2"),
            VDEVType::RaidZ3 => String::from_str("raidz3"),
        }
    }
}

/// One virtual device group: a redundancy kind and the devices under it.
#[derive(Debug, Clone)]
pub struct VDEVConfiguration {
    pub vdev_type: VDEVType,
    pub devices: Vec<String>,
}

impl Default for VDEVConfiguration {
    /// An untyped group with no devices.
    fn default() -> (r: Self)
        ensures
            r.vdev_type == VDEVType::Empty,
            r.devices@.len() == 0,
    {
        VDEVConfiguration { vdev_type: VDEVType::Empty, devices: Vec::new() }
    }
}

/// One compiled instruction: the unit of desired machine state.
#[derive(Debug, Clone)]
pub enum Instruction {
    CreatePool {
        name: String,
        vdevs: Vec<VDEVConfiguration>,
        ashift: Option<u64>,
        uefi: bool,
        be_name: Option<String>,
        pool_options: Vec<(String, String)>,
    },
    CreateBootEnvironment {
        pool_name: String,
        name: Option<String>,
    },
    InstallImage {
        src: String,
        pool: String,
    },
    CreateDataset {
        name: String,
        properties: Option<Vec<(String, String)>>,
    },
    SetLocale {
        name: String,
        unicode: bool,
    },
    SetupDNS {
        domain: Option<String>,
        search: Option<String>,
        nameservers: Vec<String>,
    },
    AddRoute {
        name: String,
        route_match: String,
        gateway: String,
    },
    SetRootPassword(RootPasswordType),
    SetHostname(String),
    SetKeymap(String),
    SetTimezone(String),
    SetupTerminal {
        name: Option<String>,
        label: Option<String>,
        modules: Option<String>,
        prompt: Option<String>,
        terminal_type: String,
    },
    SetTimeServer(String),
    ConfigureNetworkAdapter {
        device: String,
        name: Option<String>,
        ipv4: Option<NetworkConfig>,
        ipv6: Option<NetworkConfig>,
        primary: bool,
    },
}

/// An ordered sequence of instructions: the unit of desired state.
pub type InstructionsSet = Vec<Instruction>;

/// The result of one applied instruction, kept for diagnostics.
#[derive(Debug, Clone)]
pub struct CommandOutput {
    pub command: String,
    pub root_path: String,
    pub output: String,
}

/// Why compilation of a keyword record failed. Every error names the keyword
/// it came from.
#[derive(Debug, Clone)]
pub enum CompileError {
    /// The record's name is not in the schema registry.
    UnknownInstruction(String),
    /// An option key of the record is outside its schema's allowed set.
    UnknownOptionInInstruction { instruction: String, option: String },
    /// The record lacks a positional argument its keyword requires.
    MissingArgument { instruction: String },
    /// A pool definition holds an untyped group without exactly one device,
    /// or more than one untyped group.
    InvalidVdevGrouping { pool: String },
    /// An option that must be numeric is not.
    BadNumber { instruction: String, option: String },
    /// The password hashing collaborator failed.
    HashingFailed,
}

impl CompileError {
    /// A human-readable description of the failure.
    pub fn message(&self) -> String {
        match self {
            CompileError::UnknownInstruction(name) => String::from_str("keyword is not known: ")
                .concat(name.as_str()),
            CompileError::UnknownOptionInInstruction { instruction, option } => String::from_str(
                "option ",
            ).concat(option.as_str()).concat(" is not known for instruction ").concat(
                instruction.as_str(),
            ),
            CompileError::MissingArgument { instruction } => String::from_str(
                "missing argument for instruction ",
            ).concat(instruction.as_str()),
            CompileError::InvalidVdevGrouping { pool } => String::from_str(
                "more than one single disk defined in pool ",
            ).concat(pool.as_str()),
            CompileError::BadNumber { instruction, option } => String::from_str("option ").concat(
                option.as_str(),
            ).concat(" of instruction ").concat(instruction.as_str()).concat(" is not an integer"),
            CompileError::HashingFailed => String::from_str("password hashing failed"),
        }
    }
}


/// The tag naming each instruction variant.
pub open spec fn instr_tag(ins: Instruction) -> Seq<char> {
    match ins {
        Instruction::CreatePool { .. } => "create_pool"@,
        Instruction::CreateBootEnvironment { .. } => "create_boot_environment"@,
        Instruction::InstallImage { .. } => "install_image"@,
        Instruction::CreateDataset { .. } => "create_dataset"@,
        Instruction::SetLocale { .. } => "set_locale"@,
        Instruction::SetupDNS { .. } => "setup_dns"@,
        Instruction::AddRoute { .. } => "add_route"@,
        Instruction::SetRootPassword(_) => "set_root_password"@,
        Instruction::SetHostname(_) => "set_hostname"@,
        Instruction::SetKeymap(_) => "set_keymap"@,
        Instruction::SetTimezone(_) => "set_timezone"@,
        Instruction::SetupTerminal { .. } => "setup_terminal"@,
        Instruction::SetTimeServer(_) => "set_time_server"@,
        Instruction::ConfigureNetworkAdapter { .. } => "configure_network_adapter"@,
    }
}

impl Instruction {
    /// The tag naming this instruction variant, for diagnostics and the mock
    /// driver's echo. Deliberately the variant name alone: the instruction's
    /// field values are not rendered into the echo.
    pub fn describe(&self) -> (r: String)
        ensures
            r@ == instr_tag(*self),
    {
        match self {
            Instruction::CreatePool { .. } => String::from_str("create_pool"),
            Instruction::CreateBootEnvironment { .. } => String::from_str(
                "create_boot_environment",
            ),
            Instruction::InstallImage { .. } => String::from_str("install_image"),
            Instruction::CreateDataset { .. } => String::from_str("create_dataset"),
            Instruction::SetLocale { .. } => String::from_str("set_locale"),
            Instruction::SetupDNS { .. } => String::from_str("setup_dns"),
            Instruction::AddRoute { .. } => String::from_str("add_route"),
            Instruction::SetRootPassword(_) => String::from_str("set_root_password"),
            Instruction::SetHostname(_) => String::from_str("set_hostname"),
            Instruction::SetKeymap(_) => String::from_str("set_keymap"),
            Instruction::SetTimezone(_) => String::from_str("set_timezone"),
            Instruction::SetupTerminal { .. } => String::from_str("setup_terminal"),
            Instruction::SetTimeServer(_) => String::from_str("set_time_server"),
            Instruction::ConfigureNetworkAdapter { .. } => String::from_str(
                "configure_network_adapter",
            ),
        }
    }
}

} // verus!
