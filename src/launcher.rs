use vstd::prelude::*;

verus! {

/// The operating system that the application was built for.
#[derive(Clone, Copy, Debug, PartialEq, Eq, Structural)]
pub enum HostOs {
    MacOs,
    Windows,
    Linux,
    Other,
}

/// A program to start and its arguments.
#[derive(Clone, Debug, PartialEq, Eq)]
pub struct LaunchCommand {
    pub program: String,
    pub args: Vec<String>,
}

/// The command that opens `url` with the default handler of `os`; none where
/// the system has no known launcher.
pub fn launch_command(os: HostOs, url: &str) -> (r: Option<LaunchCommand>)
    ensures
        os == HostOs::Other <==> r.is_none(),
        os == HostOs::MacOs ==> (r matches Some(c) && c.program@ == "open"@ && c.args@.len() == 1
            && c.args@[0]@ == url@),
        os == HostOs::Linux ==> (r matches Some(c) && c.program@ == "xdg-open"@ && c.args@.len()
            == 1 && c.args@[0]@ == url@),
        os == HostOs::Windows ==> (r matches Some(c) && c.program@ == "cmd"@ && c.args@.len() == 3
            && c.args@[0]@ == "/C"@ && c.args@[1]@ == "start"@ && c.args@[2]@ == url@),
{
    let mut args: Vec<String> = Vec::new();
    match os {
        HostOs::MacOs => {
            args.push(url.to_owned());
            Some(LaunchCommand { program: String::from_str("open"), args })
        },
        HostOs::Windows => {
            args.push(String::from_str("/C"));
            args.push(String::from_str("start"));
            args.push(url.to_owned());
            Some(LaunchCommand { program: String::from_str("cmd"), args })
        },
        HostOs::Linux => {
            args.push(url.to_owned());
            Some(LaunchCommand { program: String::from_str("xdg-open"), args })
        },
        HostOs::Other => None,
    }
}

/// Text that opens every launch failure message.
pub open spec fn failure_prefix() -> Seq<char> {
    "Failed to open URL: "@
}

/// The error text for a launch that failed because of `cause`.
pub fn launch_failure_message(cause: &str) -> (r: String)
    ensures
        r@ == failure_prefix() + cause@,
{
    String::from_str("Failed to open URL: ").concat(cause)
}

/// The result of opening a URL, given whether starting the launcher succeeded
/// (and why it failed if not).
pub fn launch_outcome(spawned: Result<(), String>) -> (r: Result<(), String>)
    ensures
        spawned is Ok <==> r is Ok,
        spawned matches Err(cause) ==> (r matches Err(msg) && msg@ == failure_prefix() + cause@),
{
    match spawned {
        Ok(()) => Ok(()),
        Err(cause) => Err(launch_failure_message(cause.as_str())),
    }
}

/// A launch failure message holds the underlying cause, whole, right after the prefix.
pub proof fn law_failure_message_holds_cause(cause: Seq<char>)
    ensures
        ({
            let msg = failure_prefix() + cause;
            msg.subrange(failure_prefix().len() as int, msg.len() as int) == cause
        }),
{
    let msg = failure_prefix() + cause;
    assert(msg.subrange(failure_prefix().len() as int, msg.len() as int) =~= cause);
}

} // verus!
