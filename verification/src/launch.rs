//! Where the parts of the system run and the command lines that start them.

use crate::flavour::BenchmarkFlavour;
use crate::text::texts;
use vstd::prelude::*;
use vstd::string::*;

verus! {

/// Cores for the benchmark client.
pub const CLIENT_CORE_STR: &'static str = "0-9";

/// Cores for linuxd.
pub const NANVIX_LINUXD_CORE_STR: &'static str = "10-14";

/// Cores for the nano VM.
pub const NANVIX_NANOVM_CORE_STR: &'static str = "15-19";

/// Socket on which linuxd serves the nano VM.
pub const NANVIX_LINUXD_UNIX_SOCKET: &'static str = "/tmp/nanvix_datapath_ubench.socket";

/// Address on which the gateway listens for linuxd.
pub const GATEWAY_ADDRESS: &'static str = "127.0.0.1:9999";

/// The directory that holds the Nanvix build.
pub open spec fn proj_root() -> Seq<char> {
    "/home/csegarra/git/nanvix/nanvix"@
}

/// The directory that holds the Nanvix build.
pub fn get_proj_root() -> (root: String)
    ensures
        root@ == proj_root(),
{
    "/home/csegarra/git/nanvix/nanvix".to_owned()
}

/// The path of a file of the Nanvix build.
fn in_proj_root(relative: &str) -> (path: String)
    ensures
        path@ == proj_root() + relative@,
{
    let mut path = get_proj_root();
    path.append(relative);
    path
}

/// The cores that the parts of the system are pinned to.
#[derive(Debug)]
pub struct HwLoc {
    /// Cores of linuxd.
    pub linuxd_core_str: String,
    /// Cores of the nano VM.
    pub nanovm_core_str: String,
}

/// A program to start, its arguments and the directory to start it in.
#[derive(Debug)]
pub struct CommandLine {
    /// The program.
    pub program: String,
    /// Its arguments.
    pub args: Vec<String>,
    /// The directory it runs in.
    pub current_dir: String,
}

/// The texts of a command line.
#[verifier::ext_equal]
pub struct CommandLineView {
    /// The program.
    pub program: Seq<char>,
    /// Its arguments.
    pub args: Seq<Seq<char>>,
    /// The directory it runs in.
    pub current_dir: Seq<char>,
}

impl View for CommandLine {
    type V = CommandLineView;

    open spec fn view(&self) -> CommandLineView {
        CommandLineView {
            program: self.program@,
            args: texts(self.args@),
            current_dir: self.current_dir@,
        }
    }
}

/// The command line that starts linuxd, pinned to `cores`.
pub open spec fn linuxd_command_line(
    cores: Seq<char>,
    linuxd_address: Seq<char>,
    gateway_address: Seq<char>,
) -> CommandLineView {
    CommandLineView {
        program: "taskset"@,
        args: seq![
            "-ac"@,
            cores,
            proj_root() + "/bin/linuxd.elf"@,
            "-bind-addr"@,
            linuxd_address,
            "-gateway-addr"@,
            gateway_address,
            "-gateway-socket-type"@,
            "tcp"@,
            "-log-to-file"@,
        ],
        current_dir: proj_root(),
    }
}

/// The guest that a benchmark boots: the warm start needs one that keeps serving
/// requests.
pub open spec fn guest_image(flavour: BenchmarkFlavour) -> Seq<char> {
    match flavour {
        BenchmarkFlavour::WarmStart => proj_root() + "/bin/echo-rust-server-nostd.elf"@,
        BenchmarkFlavour::EchoBreakdown | BenchmarkFlavour::ColdStart => proj_root()
            + "/bin/echo-rust-nostd.elf"@,
    }
}

/// The command line that starts the nano VM, pinned to `cores`.
pub open spec fn nanovm_command_line(
    cores: Seq<char>,
    flavour: BenchmarkFlavour,
    linuxd_address: Seq<char>,
) -> CommandLineView {
    CommandLineView {
        program: "taskset"@,
        args: seq![
            "-ac"@,
            cores,
            proj_root() + "/bin/microvm.elf"@,
            "-kernel"@,
            proj_root() + "/bin/kernel.elf"@,
            "-initrd"@,
            guest_image(flavour),
            "-gateway"@,
            linuxd_address,
            "-log-to-file"@,
        ],
        current_dir: proj_root(),
    }
}

/// The command line that starts linuxd.
pub fn linuxd_command(hwloc: &HwLoc, linuxd_address: &String, gateway_address: &String) -> (command:
    CommandLine)
    ensures
        command@ == linuxd_command_line(
            hwloc.linuxd_core_str@,
            linuxd_address@,
            gateway_address@,
        ),
{
    let mut args: Vec<String> = Vec::new();
    args.push("-ac".to_owned());
    args.push(hwloc.linuxd_core_str.clone());
    args.push(in_proj_root("/bin/linuxd.elf"));
    args.push("-bind-addr".to_owned());
    args.push(linuxd_address.clone());
    args.push("-gateway-addr".to_owned());
    args.push(gateway_address.clone());
    args.push("-gateway-socket-type".to_owned());
    args.push("tcp".to_owned());
    args.push("-log-to-file".to_owned());
    let command = CommandLine {
        program: "taskset".to_owned(),
        args,
        current_dir: get_proj_root(),
    };
    assert(command@ =~= linuxd_command_line(
        hwloc.linuxd_core_str@,
        linuxd_address@,
        gateway_address@,
    ));
    command
}

/// The command line that starts the nano VM.
pub fn nanovm_command(hwloc: &HwLoc, flavour: BenchmarkFlavour, linuxd_address: &String) -> (command:
    CommandLine)
    ensures
        command@ == nanovm_command_line(hwloc.nanovm_core_str@, flavour, linuxd_address@),
{
    let guest = match flavour {
        BenchmarkFlavour::WarmStart => in_proj_root("/bin/echo-rust-server-nostd.elf"),
        BenchmarkFlavour::EchoBreakdown | BenchmarkFlavour::ColdStart => in_proj_root(
            "/bin/echo-rust-nostd.elf",
        ),
    };
    let mut args: Vec<String> = Vec::new();
    args.push("-ac".to_owned());
    args.push(hwloc.nanovm_core_str.clone());
    args.push(in_proj_root("/bin/microvm.elf"));
    args.push("-kernel".to_owned());
    args.push(in_proj_root("/bin/kernel.elf"));
    args.push("-initrd".to_owned());
    args.push(guest);
    args.push("-gateway".to_owned());
    args.push(linuxd_address.clone());
    args.push("-log-to-file".to_owned());
    let command = CommandLine {
        program: "taskset".to_owned(),
        args,
        current_dir: get_proj_root(),
    };
    assert(command@ =~= nanovm_command_line(hwloc.nanovm_core_str@, flavour, linuxd_address@));
    command
}

/// The nano VM is pointed at the very socket that linuxd binds.
pub proof fn law_shared_socket(
    linuxd_cores: Seq<char>,
    nanovm_cores: Seq<char>,
    flavour: BenchmarkFlavour,
    linuxd_address: Seq<char>,
    gateway_address: Seq<char>,
)
    ensures
        ({
            let linuxd = linuxd_command_line(linuxd_cores, linuxd_address, gateway_address);
            let nanovm = nanovm_command_line(nanovm_cores, flavour, linuxd_address);
            exists|i: int, j: int|
                #![trigger linuxd.args[i], nanovm.args[j]]
                {
                    &&& 0 <= i < linuxd.args.len() - 1
                    &&& 0 <= j < nanovm.args.len() - 1
                    &&& linuxd.args[i] == "-bind-addr"@
                    &&& nanovm.args[j] == "-gateway"@
                    &&& linuxd.args[i + 1] == nanovm.args[j + 1]
                }
        }),
{
    let linuxd = linuxd_command_line(linuxd_cores, linuxd_address, gateway_address);
    let nanovm = nanovm_command_line(nanovm_cores, flavour, linuxd_address);
    assert(linuxd.args[3] == "-bind-addr"@);
    assert(nanovm.args[7] == "-gateway"@);
    assert(linuxd.args[4] == nanovm.args[8]);
}

/// linuxd runs under `taskset` on its cores, in the directory of the Nanvix build. It binds
/// its own address and connects to the gateway over TCP.
pub proof fn law_linuxd_command_line(
    cores: Seq<char>,
    linuxd_address: Seq<char>,
    gateway_address: Seq<char>,
)
    ensures
        ({
            let command = linuxd_command_line(cores, linuxd_address, gateway_address);
            let root = "/home/csegarra/git/nanvix/nanvix"@;
            &&& command.program == "taskset"@
            &&& command.current_dir == root
            &&& command.args.len() == 10
            &&& command.args.subrange(0, 2) == seq!["-ac"@, cores]
            &&& command.args[2] == root + "/bin/linuxd.elf"@
            &&& command.args.subrange(3, 5) == seq!["-bind-addr"@, linuxd_address]
            &&& command.args.subrange(5, 7) == seq!["-gateway-addr"@, gateway_address]
            &&& command.args.subrange(7, 9) == seq!["-gateway-socket-type"@, "tcp"@]
            &&& command.args[9] == "-log-to-file"@
        }),
{
    let args = linuxd_command_line(cores, linuxd_address, gateway_address).args;
    assert(args.subrange(0, 2) =~= seq!["-ac"@, cores]);
    assert(args.subrange(3, 5) =~= seq!["-bind-addr"@, linuxd_address]);
    assert(args.subrange(5, 7) =~= seq!["-gateway-addr"@, gateway_address]);
    assert(args.subrange(7, 9) =~= seq!["-gateway-socket-type"@, "tcp"@]);
}

/// Two command lines of linuxd differ in the cores and the two addresses alone.
pub proof fn law_linuxd_command_lines_differ(
    cores_a: Seq<char>,
    linuxd_a: Seq<char>,
    gateway_a: Seq<char>,
    cores_b: Seq<char>,
    linuxd_b: Seq<char>,
    gateway_b: Seq<char>,
)
    ensures
        ({
            let a = linuxd_command_line(cores_a, linuxd_a, gateway_a);
            let b = linuxd_command_line(cores_b, linuxd_b, gateway_b);
            &&& a.program == b.program
            &&& a.current_dir == b.current_dir
            &&& a.args.update(1, cores_b).update(4, linuxd_b).update(6, gateway_b) == b.args
        }),
{
    let a = linuxd_command_line(cores_a, linuxd_a, gateway_a);
    let b = linuxd_command_line(cores_b, linuxd_b, gateway_b);
    assert(a.args.update(1, cores_b).update(4, linuxd_b).update(6, gateway_b) =~= b.args);
}

/// The nano VM runs under `taskset` on its cores, in the directory of the Nanvix build. For
/// every benchmark it boots the Nanvix kernel, and reaches linuxd at its address.
pub proof fn law_nanovm_command_line(
    cores: Seq<char>,
    flavour: BenchmarkFlavour,
    linuxd_address: Seq<char>,
)
    ensures
        ({
            let command = nanovm_command_line(cores, flavour, linuxd_address);
            let root = "/home/csegarra/git/nanvix/nanvix"@;
            &&& command.program == "taskset"@
            &&& command.current_dir == root
            &&& command.args.len() == 10
            &&& command.args.subrange(0, 2) == seq!["-ac"@, cores]
            &&& command.args[2] == root + "/bin/microvm.elf"@
            &&& command.args.subrange(3, 5) == seq!["-kernel"@, root + "/bin/kernel.elf"@]
            &&& command.args[5] == "-initrd"@
            &&& flavour == BenchmarkFlavour::WarmStart ==> command.args[6] == root
                + "/bin/echo-rust-server-nostd.elf"@
            &&& flavour != BenchmarkFlavour::WarmStart ==> command.args[6] == root
                + "/bin/echo-rust-nostd.elf"@
            &&& command.args.subrange(7, 9) == seq!["-gateway"@, linuxd_address]
            &&& command.args[9] == "-log-to-file"@
        }),
{
    let root = "/home/csegarra/git/nanvix/nanvix"@;
    let args = nanovm_command_line(cores, flavour, linuxd_address).args;
    assert(args.subrange(0, 2) =~= seq!["-ac"@, cores]);
    assert(args.subrange(3, 5) =~= seq!["-kernel"@, root + "/bin/kernel.elf"@]);
    assert(args.subrange(7, 9) =~= seq!["-gateway"@, linuxd_address]);
}

/// Two command lines of the nano VM differ in the cores, the guest and the address alone;
/// the cold start and the echo breakdown boot the same guest.
pub proof fn law_nanovm_command_lines_differ(
    cores_a: Seq<char>,
    flavour_a: BenchmarkFlavour,
    linuxd_a: Seq<char>,
    cores_b: Seq<char>,
    flavour_b: BenchmarkFlavour,
    linuxd_b: Seq<char>,
)
    ensures
        ({
            let a = nanovm_command_line(cores_a, flavour_a, linuxd_a);
            let b = nanovm_command_line(cores_b, flavour_b, linuxd_b);
            &&& a.program == b.program
            &&& a.current_dir == b.current_dir
            &&& a.args.update(1, cores_b).update(6, b.args[6]).update(8, linuxd_b) == b.args
            &&& (flavour_a == BenchmarkFlavour::WarmStart) == (flavour_b
                == BenchmarkFlavour::WarmStart) <==> a.args[6] == b.args[6]
        }),
{
    let a = nanovm_command_line(cores_a, flavour_a, linuxd_a);
    let b = nanovm_command_line(cores_b, flavour_b, linuxd_b);
    assert(a.args.update(1, cores_b).update(6, b.args[6]).update(8, linuxd_b) =~= b.args);
    reveal_strlit("/bin/echo-rust-server-nostd.elf");
    reveal_strlit("/bin/echo-rust-nostd.elf");
    let server = guest_image(BenchmarkFlavour::WarmStart);
    let single = guest_image(BenchmarkFlavour::ColdStart);
    assert(server.len() != single.len());
}

/// The view of a command line shows each of its parts.
pub proof fn law_command_line_view(command: CommandLine)
    ensures
        command@.program == command.program@,
        command@.current_dir == command.current_dir@,
        command@.args.len() == command.args@.len(),
        forall|i: int|
            0 <= i < command.args@.len() ==> #[trigger] command@.args[i] == command.args@[i]@,
{
}

} // verus!
