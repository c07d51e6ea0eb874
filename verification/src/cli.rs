//! The interactive command table: listing, lookup, help text and dispatch of a typed line.

use vstd::prelude::*;
use crate::error::AppError;
use crate::text::{
    chars_of, lowercase, push_str, push_char, split_kept, split_text, str_eq, str_to_string,
    string_views, to_lowercase,
};

verus! {

/// The version reported by `status`.
pub const APP_VERSION: &'static str = "1.0.0";

/// A command the line interpreter knows.
#[derive(Debug)]
pub struct CliCommand {
    pub name: String,
    pub description: String,
    pub usage: String,
}

/// The value of a command.
pub struct CliCommandView {
    pub name: Seq<char>,
    pub description: Seq<char>,
    pub usage: Seq<char>,
}

impl View for CliCommand {
    type V = CliCommandView;

    open spec fn view(&self) -> CliCommandView {
        CliCommandView { name: self.name@, description: self.description@, usage: self.usage@ }
    }
}

impl Clone for CliCommand {
    fn clone(&self) -> (r: Self)
        ensures
            r@ == self@,
    {
        CliCommand { name: self.name.clone(), description: self.description.clone(), usage: self.usage.clone() }
    }
}

/// A command view made of three texts.
pub open spec fn command(name: Seq<char>, description: Seq<char>, usage: Seq<char>) -> CliCommandView {
    CliCommandView { name, description, usage }
}

/// The built-in command table, in order.
pub open spec fn default_commands() -> Seq<CliCommandView> {
    seq![
        command("help"@, "Show help information"@, "help [command]"@),
        command("status"@, "Show system status"@, "status"@),
        command("model"@, "Switch AI model"@, "model <model_name>"@),
        command("memory"@, "Memory management commands"@, "memory <list|search|clear>"@),
        command("skill"@, "Skill management commands"@, "skill <list|install|uninstall> <skill_name>"@),
        command("plugin"@, "Plugin management commands"@, "plugin <list|load|unload> <plugin_name>"@),
        command("config"@, "Configuration commands"@, "config <get|set> <key> [value]"@),
        command("workspace"@, "Workspace management commands"@, "workspace <list|create|switch> [name]"@),
        command("cron"@, "Cron job management commands"@, "cron <list|add|remove|run> [args...]"@),
        command("platform"@, "Platform gateway commands"@, "platform <list|connect|disconnect> [platform_id]"@),
        command("exit"@, "Exit the application"@, "exit"@),
    ]
}

/// The first command named `name`.
pub open spec fn find_command(cs: Seq<CliCommandView>, name: Seq<char>) -> Option<CliCommandView>
    decreases cs.len(),
{
    if cs.len() == 0 {
        None
    } else if cs[0].name == name {
        Some(cs[0])
    } else {
        find_command(cs.drop_first(), name)
    }
}

/// `s` followed by spaces up to a width of twelve characters, as `{:12}` formats it.
pub open spec fn pad12(s: Seq<char>) -> Seq<char> {
    if s.len() < 12 {
        s + Seq::new((12 - s.len()) as nat, |i: int| ' ')
    } else {
        s
    }
}

/// One line per command: its padded name, a dash and its description.
pub open spec fn command_lines(cs: Seq<CliCommandView>) -> Seq<char>
    decreases cs.len(),
{
    if cs.len() == 0 {
        Seq::empty()
    } else {
        command_lines(cs.drop_last()) + "  "@ + pad12(cs.last().name) + " - "@ + cs.last().description + "\n"@
    }
}

/// The help text for the words after `help`.
pub open spec fn help_text(cs: Seq<CliCommandView>, args: Seq<Seq<char>>) -> Seq<char> {
    if args.len() > 0 {
        match find_command(cs, args[0]) {
            Some(c) => c.name + " - "@ + c.description + "\nUsage: "@ + c.usage,
            None => "Unknown command: "@ + args[0],
        }
    } else {
        "Available commands:\n"@ + command_lines(cs) + "\nUse 'help <command>' for more information."@
    }
}

/// The status report for a platform name.
pub open spec fn status_text(platform: Seq<char>) -> Seq<char> {
    "Mahakala Agent Status:\n- Version: "@ + APP_VERSION@ + "\n- Platform: "@ + platform
        + "\n- Uptime: 0 seconds\n- Status: Running"@
}

/// The words of a line: its maximal runs of non-whitespace characters.
pub open spec fn words(line: Seq<char>) -> Seq<Seq<char>> {
    split_kept(line, false, 0)
}

/// What a typed line yields: `Ok` with the reply, or `Err` with the message of an
/// `InvalidInput` error for an unknown command. The first word names the command,
/// compared in lower case.
pub open spec fn execute_result(cs: Seq<CliCommandView>, platform: Seq<char>, line: Seq<char>) -> Result<Seq<char>, Seq<char>> {
    let ws = words(line);
    if ws.len() == 0 {
        Ok(Seq::empty())
    } else {
        command_result(cs, platform, lowercase(ws[0]), ws.drop_first())
    }
}

/// The reply to the command `cmd` (already lower-cased) with the arguments `args`.
pub open spec fn command_result(cs: Seq<CliCommandView>, platform: Seq<char>, cmd: Seq<char>, args: Seq<Seq<char>>) -> Result<Seq<char>, Seq<char>> {
    if cmd == "help"@ {
        Ok(help_text(cs, args))
    } else if cmd == "status"@ {
        Ok(status_text(platform))
    } else if cmd == "exit"@ {
        Ok("Goodbye!"@)
    } else if find_command(cs, cmd) is Some {
        Ok("Command '"@ + cmd + "' is recognized but requires runtime context to execute."@)
    } else {
        Err("Unknown command: "@ + cmd)
    }
}

/// The views of a vector of commands.
pub open spec fn command_views(v: Seq<CliCommand>) -> Seq<CliCommandView> {
    v.map_values(|c: CliCommand| c@)
}

/// The result of a line as the library returns it, compared with `execute_result`.
pub open spec fn matches_result(r: Result<String, AppError>, expected: Result<Seq<char>, Seq<char>>) -> bool {
    match (r, expected) {
        (Ok(s), Ok(t)) => s@ == t,
        (Err(e), Err(m)) => e is InvalidInput && e.message() == m,
        _ => false,
    }
}

/// The command table and the name of the platform the program runs on.
pub struct CliManager {
    commands: Vec<CliCommand>,
    platform: String,
}

fn make_command(name: &str, description: &str, usage: &str) -> (c: CliCommand)
    ensures
        c@ == command(name@, description@, usage@),
{
    CliCommand { name: str_to_string(name), description: str_to_string(description), usage: str_to_string(usage) }
}

fn first_command(cs: &Vec<CliCommand>, name: &str) -> (r: Option<usize>)
    ensures
        match r {
            Some(i) => i < cs@.len() && find_command(command_views(cs@), name@) == Some(cs@[i as int]@),
            None => find_command(command_views(cs@), name@) is None,
        },
{
    let ghost all = command_views(cs@);
    let mut i: usize = 0;
    assert(all.subrange(0, all.len() as int) =~= all);
    while i < cs.len()
        invariant
            i <= cs@.len(),
            all == command_views(cs@),
            find_command(all, name@) == find_command(all.subrange(i as int, all.len() as int), name@),
        decreases cs.len() - i,
    {
        let ghost rest = all.subrange(i as int, all.len() as int);
        assert(rest[0] == cs@[i as int]@);
        if str_eq(cs[i].name.as_str(), name) {
            return Some(i);
        }
        assert(rest.drop_first() =~= all.subrange(i + 1, all.len() as int));
        i = i + 1;
    }
    assert(all.subrange(i as int, all.len() as int).len() == 0);
    None
}

fn push_padded(s: &mut String, name: &str)
    ensures
        final(s)@ == old(s)@ + pad12(name@),
{
    push_str(s, name);
    let n = chars_of(name).len();
    let mut k = n;
    while k < 12
        invariant
            n == name@.len(),
            n <= k <= 12 || (k == n && n > 12),
            s@ == old(s)@ + name@ + Seq::new((k - n) as nat, |i: int| ' '),
        decreases 12 - k,
    {
        let ghost before = s@;
        push_char(s, ' ');
        k = k + 1;
        assert(s@ =~= old(s)@ + name@ + Seq::new((k - n) as nat, |i: int| ' '));
    }
    assert(Seq::new(0, |i: int| ' ') =~= Seq::<char>::empty());
    assert(s@ =~= old(s)@ + pad12(name@));
}

impl CliManager {
    /// The commands, in table order.
    pub closed spec fn commands_view(&self) -> Seq<CliCommandView> {
        command_views(self.commands@)
    }

    /// The platform named in status reports.
    pub closed spec fn platform_view(&self) -> Seq<char> {
        self.platform@
    }

    /// The built-in command table, reporting `platform` in status replies.
    pub fn new(platform: &str) -> (r: Self)
        ensures
            r.commands_view() == default_commands(),
            r.platform_view() == platform@,
    {
        let commands = vec![
            make_command("help", "Show help information", "help [command]"),
            make_command("status", "Show system status", "status"),
            make_command("model", "Switch AI model", "model <model_name>"),
            make_command("memory", "Memory management commands", "memory <list|search|clear>"),
            make_command("skill", "Skill management commands", "skill <list|install|uninstall> <skill_name>"),
            make_command("plugin", "Plugin management commands", "plugin <list|load|unload> <plugin_name>"),
            make_command("config", "Configuration commands", "config <get|set> <key> [value]"),
            make_command("workspace", "Workspace management commands", "workspace <list|create|switch> [name]"),
            make_command("cron", "Cron job management commands", "cron <list|add|remove|run> [args...]"),
            make_command("platform", "Platform gateway commands", "platform <list|connect|disconnect> [platform_id]"),
            make_command("exit", "Exit the application", "exit"),
        ];
        assert(command_views(commands@) =~= default_commands());
        CliManager { commands, platform: str_to_string(platform) }
    }

    /// All commands, in table order.
    pub fn list_commands(&self) -> (r: Vec<CliCommand>)
        ensures
            command_views(r@) == self.commands_view(),
    {
        let mut out: Vec<CliCommand> = Vec::new();
        let mut i: usize = 0;
        while i < self.commands.len()
            invariant
                i <= self.commands@.len(),
                out@.len() == i,
                forall|j: int| 0 <= j < i ==> #[trigger] out@[j]@ == self.commands@[j]@,
            decreases self.commands.len() - i,
        {
            out.push(self.commands[i].clone());
            i = i + 1;
        }
        assert(command_views(out@) =~= self.commands_view());
        out
    }

    /// The first command named `name`.
    pub fn get_command(&self, name: &str) -> (r: Option<CliCommand>)
        ensures
            match r {
                Some(c) => find_command(self.commands_view(), name@) == Some(c@),
                None => find_command(self.commands_view(), name@) is None,
            },
    {
        match first_command(&self.commands, name) {
            Some(i) => Some(self.commands[i].clone()),
            None => None,
        }
    }

    /// The help text: for a known command named by the first argument, its name,
    /// description and usage; an unknown-command note for another name; else the list
    /// of all commands.
    pub fn help(&self, args: &Vec<String>) -> (r: String)
        ensures
            r@ == help_text(self.commands_view(), string_views(args@)),
    {
        if args.len() > 0 {
            let name = args[0].as_str();
            assert(string_views(args@)[0] == args@[0]@);
            match first_command(&self.commands, name) {
                Some(i) => {
                    let c = &self.commands[i];
                    let mut out = c.name.clone();
                    push_str(&mut out, " - ");
                    push_str(&mut out, c.description.as_str());
                    push_str(&mut out, "\nUsage: ");
                    push_str(&mut out, c.usage.as_str());
                    out
                },
                None => {
                    let mut out = str_to_string("Unknown command: ");
                    push_str(&mut out, name);
                    out
                },
            }
        } else {
            let mut out = str_to_string("Available commands:\n");
            let ghost start = out@;
            let ghost cs = self.commands_view();
            let mut i: usize = 0;
            while i < self.commands.len()
                invariant
                    i <= self.commands@.len(),
                    cs == command_views(self.commands@),
                    out@ == start + command_lines(cs.subrange(0, i as int)),
                decreases self.commands.len() - i,
            {
                let c = &self.commands[i];
                push_str(&mut out, "  ");
                push_padded(&mut out, c.name.as_str());
                push_str(&mut out, " - ");
                push_str(&mut out, c.description.as_str());
                push_str(&mut out, "\n");
                proof {
                    let sub = cs.subrange(0, i + 1);
                    assert(sub.drop_last() =~= cs.subrange(0, i as int));
                    assert(sub.last() == c@);
                    assert(out@ =~= start + command_lines(sub));
                }
                i = i + 1;
            }
            assert(cs.subrange(0, cs.len() as int) =~= cs);
            push_str(&mut out, "\nUse 'help <command>' for more information.");
            out
        }
    }

    fn status(&self) -> (r: String)
        ensures
            r@ == status_text(self.platform_view()),
    {
        let mut out = str_to_string("Mahakala Agent Status:\n- Version: ");
        push_str(&mut out, APP_VERSION);
        push_str(&mut out, "\n- Platform: ");
        push_str(&mut out, self.platform.as_str());
        push_str(&mut out, "\n- Uptime: 0 seconds\n- Status: Running");
        out
    }

    /// Runs a typed line: `help [command]`, `status`, `exit`, any other known command
    /// (acknowledged), or `InvalidInput` for an unknown one. Blank lines yield an empty reply.
    pub fn execute(&self, input: &str) -> (r: Result<String, AppError>)
        ensures
            matches_result(r, execute_result(self.commands_view(), self.platform_view(), input@)),
    {
        let chars = chars_of(input);
        let parts = split_text(&chars, false, 0);
        if parts.len() == 0 {
            return Ok(String::new());
        }
        assert(string_views(parts@)[0] == parts@[0]@);
        let cmd = to_lowercase(parts[0].as_str());
        let mut args: Vec<String> = Vec::new();
        let mut i: usize = 1;
        while i < parts.len()
            invariant
                1 <= i <= parts@.len(),
                args@.len() == i - 1,
                string_views(args@) == string_views(parts@).subrange(1, i as int),
            decreases parts.len() - i,
        {
            let ghost before = args@;
            let p = parts[i].clone();
            args.push(p);
            assert(args@ == before.push(p));
            assert(string_views(args@)[i - 1] == string_views(parts@)[i as int]);
            assert(string_views(args@) =~= string_views(parts@).subrange(1, i + 1));
            i = i + 1;
        }
        assert(string_views(parts@).drop_first() =~= string_views(parts@).subrange(1, parts@.len() as int));
        self.run_command(cmd.as_str(), &args)
    }

    /// Runs the command `cmd`, already lower-cased, with the arguments `args`: `help`,
    /// `status`, `exit`, any other known command (acknowledged), or `InvalidInput` for an
    /// unknown one.
    pub fn run_command(&self, cmd: &str, args: &Vec<String>) -> (r: Result<String, AppError>)
        ensures
            matches_result(r, command_result(self.commands_view(), self.platform_view(), cmd@, string_views(args@))),
    {
        if str_eq(cmd, "help") {
            Ok(self.help(args))
        } else if str_eq(cmd, "status") {
            Ok(self.status())
        } else if str_eq(cmd, "exit") {
            Ok(str_to_string("Goodbye!"))
        } else if first_command(&self.commands, cmd).is_some() {
            let mut out = str_to_string("Command '");
            push_str(&mut out, cmd);
            push_str(&mut out, "' is recognized but requires runtime context to execute.");
            Ok(out)
        } else {
            let mut out = str_to_string("Unknown command: ");
            push_str(&mut out, cmd);
            Err(AppError::InvalidInput(out))
        }
    }
}

/// A shareable handle on a command table.
pub struct CliHandle {
    inner: std::sync::Arc<CliManager>,
}

impl CliHandle {
    /// The command table behind the handle.
    pub closed spec fn manager(&self) -> CliManager {
        *self.inner
    }

    /// A handle on a new built-in command table.
    pub fn new(platform: &str) -> (r: Self)
        ensures
            r.manager().commands_view() == default_commands(),
            r.manager().platform_view() == platform@,
    {
        CliHandle { inner: std::sync::Arc::new(CliManager::new(platform)) }
    }

    /// All commands, in table order.
    pub fn list_commands(&self) -> (r: Vec<CliCommand>)
        ensures
            command_views(r@) == self.manager().commands_view(),
    {
        self.inner.list_commands()
    }

    /// The first command named `name`.
    pub fn get_command(&self, name: &str) -> (r: Option<CliCommand>)
        ensures
            match r {
                Some(c) => find_command(self.manager().commands_view(), name@) == Some(c@),
                None => find_command(self.manager().commands_view(), name@) is None,
            },
    {
        self.inner.get_command(name)
    }

    /// Runs a typed line on the table behind the handle.
    pub fn execute(&self, input: &str) -> (r: Result<String, AppError>)
        ensures
            matches_result(r, execute_result(self.manager().commands_view(), self.manager().platform_view(), input@)),
    {
        self.inner.execute(input)
    }
}

impl Clone for CliHandle {
    fn clone(&self) -> (r: Self)
        ensures
            r.manager() == self.manager(),
    {
        CliHandle { inner: std::sync::Arc::clone(&self.inner) }
    }
}

} // verus!
