//! Power actions (shutdown, reboot, logout) and the commands that carry them out.
use vstd::prelude::*;

verus! {

broadcast use vstd::string::group_string_axioms;

/// A power action.
#[derive(Debug, Clone, Copy, PartialEq, Eq, Structural)]
pub enum PowerActionType {
    Shutdown,
    Reboot,
    Logout,
}

/// The power service; it runs `systemctl` and `loginctl`, so it holds nothing.
pub struct PowerService {}

/// A command to run: a program and its arguments.
#[derive(Debug, Clone)]
pub struct PowerCommand {
    pub program: &'static str,
    pub args: Vec<&'static str>,
}

/// The program and arguments of a command, as text.
pub open spec fn command_view(c: PowerCommand) -> (Seq<char>, Seq<Seq<char>>) {
    (c.program@, c.args@.map_values(|a: &'static str| a@))
}

/// What follows a power command.
#[derive(Debug, Clone)]
pub enum PowerOutcome {
    /// The action succeeded.
    Succeeded,
    /// The action failed, with this message.
    Failed { message: String },
    /// The action falls back to this command, and then counts as done.
    Fallback { command: PowerCommand },
}

/// The command that carries out an action: `systemctl poweroff`,
/// `systemctl reboot`, or `loginctl terminate-session self`.
pub open spec fn action_command(action: PowerActionType) -> (Seq<char>, Seq<Seq<char>>) {
    match action {
        PowerActionType::Shutdown => ("systemctl"@, seq!["poweroff"@]),
        PowerActionType::Reboot => ("systemctl"@, seq!["reboot"@]),
        PowerActionType::Logout => ("loginctl"@, seq!["terminate-session"@, "self"@]),
    }
}

/// The command that ends the compositor's session: `niri msg action quit`.
pub open spec fn quit_command() -> (Seq<char>, Seq<Seq<char>>) {
    ("niri"@, seq!["msg"@, "action"@, "quit"@])
}

/// A command of one argument.
fn command1(program: &'static str, a: &'static str) -> (r: PowerCommand)
    ensures
        command_view(r) == (program@, seq![a@]),
{
    let mut args: Vec<&'static str> = Vec::new();
    args.push(a);
    let r = PowerCommand { program, args };
    assert(command_view(r).1 =~= seq![a@]);
    r
}

impl PowerService {
    /// The power service.
    pub fn new_stub() -> (r: Self) {
        Self {  }
    }

    /// The command that carries out an action.
    pub fn command_for(&self, action: PowerActionType) -> (r: PowerCommand)
        ensures
            command_view(r) == action_command(action),
    {
        match action {
            PowerActionType::Shutdown => command1("systemctl", "poweroff"),
            PowerActionType::Reboot => command1("systemctl", "reboot"),
            PowerActionType::Logout => {
                let mut args: Vec<&'static str> = Vec::new();
                args.push("terminate-session");
                args.push("self");
                let r = PowerCommand { program: "loginctl", args };
                assert(command_view(r).1 =~= seq!["terminate-session"@, "self"@]);
                r
            },
        }
    }

    /// What follows the command of an action, given whether it ran and
    /// succeeded: success; or, for shutdown and reboot, failure; or, for
    /// logout, leaving the compositor instead (logout never fails).
    pub fn outcome(&self, action: PowerActionType, succeeded: bool) -> (r: PowerOutcome)
        ensures
            succeeded ==> r is Succeeded,
            !succeeded ==> match action {
                PowerActionType::Shutdown => r matches PowerOutcome::Failed { message } && message@
                    == "systemctl poweroff failed"@,
                PowerActionType::Reboot => r matches PowerOutcome::Failed { message } && message@
                    == "systemctl reboot failed"@,
                PowerActionType::Logout => r matches PowerOutcome::Fallback { command }
                    && command_view(command) == quit_command(),
            },
    {
        if succeeded {
            return PowerOutcome::Succeeded;
        }
        match action {
            PowerActionType::Shutdown => PowerOutcome::Failed {
                message: "systemctl poweroff failed".to_string(),
            },
            PowerActionType::Reboot => PowerOutcome::Failed {
                message: "systemctl reboot failed".to_string(),
            },
            PowerActionType::Logout => {
                let mut args: Vec<&'static str> = Vec::new();
                args.push("msg");
                args.push("action");
                args.push("quit");
                let command = PowerCommand { program: "niri", args };
                assert(command_view(command).1 =~= seq!["msg"@, "action"@, "quit"@]);
                PowerOutcome::Fallback { command }
            },
        }
    }
}

} // verus!
