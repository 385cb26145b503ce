//! The command lines that the launcher runs on the host.

use crate::text::views;
use vstd::prelude::*;
use vstd::string::StringExecFns;

verus! {

/// A program that the launcher runs.
#[derive(Clone, Copy, Debug, PartialEq, Eq, Structural)]
pub enum Program {
    /// The debug bridge that ships with the launcher.
    Adb,
    /// The mirroring tool that ships with the launcher.
    Scrcpy,
    /// The host's `taskkill`.
    TaskKill,
}

/// One command line: a program and its arguments.
#[derive(Debug, PartialEq, Eq)]
pub struct HostCommand {
    pub program: Program,
    pub args: Vec<String>,
}

/// A [`HostCommand`] with its arguments as sequences of characters.
pub struct HostCommandView {
    pub program: Program,
    pub args: Seq<Seq<char>>,
}

impl View for HostCommand {
    type V = HostCommandView;

    open spec fn view(&self) -> HostCommandView {
        HostCommandView { program: self.program, args: views(self.args@) }
    }
}

/// The views of a list of commands.
pub open spec fn command_views(list: Seq<HostCommand>) -> Seq<HostCommandView> {
    Seq::new(list.len(), |i: int| list[i]@)
}

/// The view of a slice of string slices.
pub open spec fn slices(items: Seq<&str>) -> Seq<Seq<char>> {
    Seq::new(items.len(), |i: int| items[i]@)
}

/// Builds the command that runs `program` with `items` as its arguments.
pub fn command(program: Program, items: &[&str]) -> (c: HostCommand)
    ensures
        c@ == (HostCommandView { program, args: slices(items@) }),
{
    let mut args: Vec<String> = Vec::new();
    let mut i: usize = 0;
    while i < items.len()
        invariant
            i <= items.len(),
            views(args@) == slices(items@).take(i as int),
        decreases items.len() - i,
    {
        let ghost before = views(args@);
        args.push(String::from_str(items[i]));
        assert(views(args@) =~= before.push(items@[i as int]@));
        assert(before.push(items@[i as int]@) =~= slices(items@).take(i + 1));
        i += 1;
    }
    assert(slices(items@).take(items@.len() as int) =~= slices(items@));
    HostCommand { program, args }
}

/// `adb devices`: lists the attached devices.
pub fn list_devices() -> (c: HostCommand)
    ensures
        c@ == (HostCommandView { program: Program::Adb, args: seq!["devices"@] }),
{
    let c = command(Program::Adb, &["devices"]);
    assert(c@.args =~= seq!["devices"@]);
    c
}

/// `adb connect <ip>`: connects to a device over the network.
pub fn connect_device(ip: &str) -> (c: HostCommand)
    ensures
        c@ == (HostCommandView { program: Program::Adb, args: seq!["connect"@, ip@] }),
{
    let c = command(Program::Adb, &["connect", ip]);
    assert(c@.args =~= seq!["connect"@, ip@]);
    c
}

/// `adb pair <address> <code>`: pairs with a device.
pub fn pair_with(address: &str, code: &str) -> (c: HostCommand)
    ensures
        c@ == (HostCommandView { program: Program::Adb, args: seq!["pair"@, address@, code@] }),
{
    let c = command(Program::Adb, &["pair", address, code]);
    assert(c@.args =~= seq!["pair"@, address@, code@]);
    c
}

/// `adb tcpip 5555`: has the attached device listen on the network.
pub fn enable_tcpip() -> (c: HostCommand)
    ensures
        c@ == (HostCommandView { program: Program::Adb, args: seq!["tcpip"@, "5555"@] }),
{
    let c = command(Program::Adb, &["tcpip", "5555"]);
    assert(c@.args =~= seq!["tcpip"@, "5555"@]);
    c
}

/// `adb disconnect`: drops every network connection.
pub fn disconnect_everything() -> (c: HostCommand)
    ensures
        c@ == (HostCommandView { program: Program::Adb, args: seq!["disconnect"@] }),
{
    let c = command(Program::Adb, &["disconnect"]);
    assert(c@.args =~= seq!["disconnect"@]);
    c
}

/// `adb shell pm list packages -3`: lists the apps that the user installed.
pub fn list_packages() -> (c: HostCommand)
    ensures
        c@ == (HostCommandView {
            program: Program::Adb,
            args: seq!["shell"@, "pm"@, "list"@, "packages"@, "-3"@],
        }),
{
    let c = command(Program::Adb, &["shell", "pm", "list", "packages", "-3"]);
    assert(c@.args =~= seq!["shell"@, "pm"@, "list"@, "packages"@, "-3"@]);
    c
}

/// `adb push -p <local> <remote>`: copies a file and shows its progress.
pub fn push_with_progress(local_path: &str, remote_path: &str) -> (c: HostCommand)
    ensures
        c@ == (HostCommandView {
            program: Program::Adb,
            args: seq!["push"@, "-p"@, local_path@, remote_path@],
        }),
{
    let c = command(Program::Adb, &["push", "-p", local_path, remote_path]);
    assert(c@.args =~= seq!["push"@, "-p"@, local_path@, remote_path@]);
    c
}

/// The command that ends every process of the image `image`.
pub open spec fn kill_image(image: Seq<char>) -> HostCommandView {
    HostCommandView { program: Program::TaskKill, args: seq!["/F"@, "/IM"@, image] }
}

/// `taskkill /F /IM <image>`.
pub fn kill_processes(image: &str) -> (c: HostCommand)
    ensures
        c@ == kill_image(image@),
{
    let c = command(Program::TaskKill, &["/F", "/IM", image]);
    assert(c@.args =~= seq!["/F"@, "/IM"@, image@]);
    c
}

/// The command that closes the mirroring tool's windows.
pub fn kill_scrcpy() -> (c: HostCommand)
    ensures
        c@ == kill_image("scrcpy.exe"@),
{
    kill_processes("scrcpy.exe")
}

/// The commands that stop the bridge's server: it is asked to end, and what
/// is left of it is killed.
pub fn kill_adb_server() -> (list: Vec<HostCommand>)
    ensures
        command_views(list@) == seq![
            HostCommandView { program: Program::Adb, args: seq!["kill-server"@] },
            kill_image("adb.exe"@),
        ],
{
    let ask = command(Program::Adb, &["kill-server"]);
    assert(ask@.args =~= seq!["kill-server"@]);
    let kill = kill_processes("adb.exe");
    let mut list: Vec<HostCommand> = Vec::new();
    list.push(ask);
    list.push(kill);
    assert(command_views(list@) =~= seq![
        HostCommandView { program: Program::Adb, args: seq!["kill-server"@] },
        kill_image("adb.exe"@),
    ]);
    list
}

/// The commands that are run before the launcher exits: the mirroring
/// tool's windows are closed, then the bridge's server is stopped.
pub fn cleanup_before_exit() -> (list: Vec<HostCommand>)
    ensures
        command_views(list@) == seq![
            kill_image("scrcpy.exe"@),
            HostCommandView { program: Program::Adb, args: seq!["kill-server"@] },
            kill_image("adb.exe"@),
        ],
{
    let mut list: Vec<HostCommand> = Vec::new();
    list.push(kill_scrcpy());
    let mut server = kill_adb_server();
    let ghost first = command_views(list@);
    let ghost rest = command_views(server@);
    list.append(&mut server);
    assert(command_views(list@) =~= first + rest);
    list
}

} // verus!
