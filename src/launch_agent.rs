//! The background-process registration that starts the sync loop at login:
//! where its file lives, what it says, and the commands that load it.
use vstd::prelude::*;
use crate::bundle::{join, join_path};

verus! {

/// The identifier of the registration, also its label.
pub const LAUNCH_AGENT_NAME: &'static str = "com.external-app-sync.daemon";

/// Where registrations live, below the home directory.
pub const AGENTS_SUBDIR: &'static str = "Library/LaunchAgents";

pub const PLIST_SUFFIX: &'static str = ".plist";

pub const PLIST_HEAD: &'static str = "<?xml version=\"1.0\" encoding=\"UTF-8\"?>
<!DOCTYPE plist PUBLIC \"-//Apple//DTD PLIST 1.0//EN\" \"http://www.apple.com/DTDs/PropertyList-1.0.dtd\">
<plist version=\"1.0\">
<dict>
    <key>Label</key>
    <string>";

pub const PLIST_PROGRAM: &'static str = "</string>
    <key>ProgramArguments</key>
    <array>
        <string>";

pub const PLIST_STDERR: &'static str = "</string>
    </array>
    <key>KeepAlive</key>
    <true/>
    <key>RunAtLoad</key>
    <true/>
    <key>StandardErrorPath</key>
    <string>";

pub const LOGS_SUBDIR: &'static str = "/Library/Logs/";

pub const PLIST_STDOUT: &'static str = ".err</string>
    <key>StandardOutPath</key>
    <string>";

pub const PLIST_TAIL: &'static str = ".out</string>
</dict>
</plist>";

/// The registration file for a home directory.
pub open spec fn plist_path_for(home: Seq<char>) -> Seq<char> {
    join_path(join_path(home, AGENTS_SUBDIR@), LAUNCH_AGENT_NAME@ + PLIST_SUFFIX@)
}

/// A log file of the registered process: `suffix` is `.out` or `.err`.
pub open spec fn log_path_for(home: Seq<char>, suffix: Seq<char>) -> Seq<char> {
    home + LOGS_SUBDIR@ + LAUNCH_AGENT_NAME@ + suffix
}

/// The registration file's text: label, program, keep-alive, run at load,
/// and the two log files.
pub open spec fn plist_text(executable: Seq<char>, home: Seq<char>) -> Seq<char> {
    PLIST_HEAD@ + LAUNCH_AGENT_NAME@ + PLIST_PROGRAM@ + executable + PLIST_STDERR@ + home
        + LOGS_SUBDIR@ + LAUNCH_AGENT_NAME@ + PLIST_STDOUT@ + home + LOGS_SUBDIR@
        + LAUNCH_AGENT_NAME@ + PLIST_TAIL@
}

pub struct LaunchAgentView {
    pub home: Seq<char>,
    pub plist_path: Seq<char>,
    pub executable_path: Seq<char>,
}

/// The registration of the sync loop's executable for one user.
#[derive(Debug)]
pub struct LaunchAgent {
    home: String,
    plist_path: String,
    executable_path: String,
}

impl View for LaunchAgent {
    type V = LaunchAgentView;

    closed spec fn view(&self) -> LaunchAgentView {
        LaunchAgentView {
            home: self.home@,
            plist_path: self.plist_path@,
            executable_path: self.executable_path@,
        }
    }
}

/// Relies on dirs::home_dir: the current user's home directory, if one is
/// known; `None` as well when it is not valid UTF-8. Nothing is promised of
/// its value.
#[verifier::external_body]
fn home_dir() -> Option<String> {
    match dirs::home_dir() {
        Some(p) => p.into_os_string().into_string().ok(),
        None => None,
    }
}

impl LaunchAgent {
    pub open spec fn wf(&self) -> bool {
        self@.plist_path == plist_path_for(self@.home)
    }

    /// The registration of `executable_path` for the user whose home is
    /// `home`.
    pub fn with_home(home: String, executable_path: String) -> (r: LaunchAgent)
        ensures
            r.wf(),
            r@.home == home@,
            r@.executable_path == executable_path@,
    {
        let dir = join(home.as_str(), AGENTS_SUBDIR);
        let file = String::from_str(LAUNCH_AGENT_NAME).concat(PLIST_SUFFIX);
        let plist_path = join(dir.as_str(), file.as_str());
        LaunchAgent { home, plist_path, executable_path }
    }

    /// The registration of `executable_path` for the current user; `None`
    /// when no home directory is known.
    pub fn new(executable_path: String) -> (r: Option<LaunchAgent>)
        ensures
            r is Some ==> r->0.wf() && r->0@.executable_path == executable_path@,
    {
        match home_dir() {
            Some(home) => Some(LaunchAgent::with_home(home, executable_path)),
            None => None,
        }
    }

    /// The registration file; it exists exactly when the agent is installed.
    pub fn plist_path(&self) -> (r: &str)
        ensures
            r@ == self@.plist_path,
    {
        self.plist_path.as_str()
    }

    pub fn executable_path(&self) -> (r: &str)
        ensures
            r@ == self@.executable_path,
    {
        self.executable_path.as_str()
    }

    /// The text to write into the registration file.
    pub fn plist_contents(&self) -> (r: String)
        ensures
            r@ == plist_text(self@.executable_path, self@.home),
    {
        let mut r = String::from_str(PLIST_HEAD);
        r.append(LAUNCH_AGENT_NAME);
        r.append(PLIST_PROGRAM);
        r.append(self.executable_path.as_str());
        r.append(PLIST_STDERR);
        r.append(self.home.as_str());
        r.append(LOGS_SUBDIR);
        r.append(LAUNCH_AGENT_NAME);
        r.append(PLIST_STDOUT);
        r.append(self.home.as_str());
        r.append(LOGS_SUBDIR);
        r.append(LAUNCH_AGENT_NAME);
        r.append(PLIST_TAIL);
        r
    }

    fn log_path(&self, suffix: &str) -> (r: String)
        ensures
            r@ == log_path_for(self@.home, suffix@),
    {
        let mut r = String::from_str(self.home.as_str());
        r.append(LOGS_SUBDIR);
        r.append(LAUNCH_AGENT_NAME);
        r.append(suffix);
        r
    }

    /// Where the registered process's standard output goes.
    pub fn stdout_log_path(&self) -> (r: String)
        ensures
            r@ == log_path_for(self@.home, ".out"@),
    {
        self.log_path(".out")
    }

    /// Where the registered process's standard error goes.
    pub fn stderr_log_path(&self) -> (r: String)
        ensures
            r@ == log_path_for(self@.home, ".err"@),
    {
        self.log_path(".err")
    }

    fn launchctl_args(&self, verb: &str) -> (r: Vec<String>)
        ensures
            r@.len() == 3,
            r@[0]@ == verb@,
            r@[1]@ == "-w"@,
            r@[2]@ == self@.plist_path,
    {
        let mut r: Vec<String> = Vec::new();
        r.push(String::from_str(verb));
        r.push(String::from_str("-w"));
        r.push(String::from_str(self.plist_path.as_str()));
        r
    }

    /// The `launchctl` arguments that load the registration.
    pub fn load_args(&self) -> (r: Vec<String>)
        ensures
            r@.len() == 3,
            r@[0]@ == "load"@,
            r@[1]@ == "-w"@,
            r@[2]@ == self@.plist_path,
    {
        self.launchctl_args("load")
    }

    /// The `launchctl` arguments that unload the registration.
    pub fn unload_args(&self) -> (r: Vec<String>)
        ensures
            r@.len() == 3,
            r@[0]@ == "unload"@,
            r@[1]@ == "-w"@,
            r@[2]@ == self@.plist_path,
    {
        self.launchctl_args("unload")
    }
}

} // verus!
