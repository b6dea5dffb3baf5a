//! Configuration data: the project's named commands, the globally configured
//! hooks, and the resolution of a command's hook names against the global
//! hook table.

use vstd::prelude::*;

verus! {

/// A webhook endpoint of the Feishu-style backend: the delivery target URL.
#[derive(Debug)]
pub struct FeishuHook {
    pub webhook_url: String,
}

/// A named notification backend, as configured globally. One variant per
/// backend kind; today only the Feishu-style webhook exists.
#[derive(Debug)]
pub enum Hook {
    Feishu(FeishuHook),
}

/// The webhook URL a hook delivers to. Today every hook is a Feishu-style
/// webhook, so the URL is the whole of what dispatch reads from a hook.
pub open spec fn hook_url(h: Hook) -> Seq<char> {
    match h {
        Hook::Feishu(f) => f.webhook_url@,
    }
}

impl Clone for FeishuHook {
    fn clone(&self) -> (r: Self)
        ensures
            r.webhook_url@ == self.webhook_url@,
    {
        FeishuHook { webhook_url: self.webhook_url.clone() }
    }
}

impl Clone for Hook {
    fn clone(&self) -> (r: Self)
        ensures
            hook_url(r) == hook_url(*self),
    {
        match self {
            Hook::Feishu(f) => Hook::Feishu(f.clone()),
        }
    }
}

/// A project-configured command: the shell command line, the two stream
/// flags (pass through and capture when true, discard when false), and the
/// ordered list of hook names to notify when the command finishes.
#[derive(Debug)]
pub struct Command {
    pub command: String,
    pub stdout: bool,
    pub stderr: bool,
    pub hooks: Vec<String>,
}

/// The mathematical content of a [`Command`].
pub struct CommandView {
    pub command: Seq<char>,
    pub stdout: bool,
    pub stderr: bool,
    pub hooks: Seq<Seq<char>>,
}

impl View for Command {
    type V = CommandView;

    open spec fn view(&self) -> CommandView {
        CommandView {
            command: self.command@,
            stdout: self.stdout,
            stderr: self.stderr,
            hooks: self.hooks@.map_values(|h: String| h@),
        }
    }
}

/// One named command of the project configuration.
#[derive(Debug)]
pub struct CommandEntry {
    pub name: String,
    pub command: Command,
}

/// Project configuration: the named commands, in file order.
#[derive(Debug)]
pub struct ProjectConfig {
    pub cmd: Vec<CommandEntry>,
}

/// One named hook of the global configuration.
pub struct HookEntry {
    pub name: String,
    pub hook: Hook,
}

/// Global configuration: the named hooks, in file order. A missing global
/// configuration file is represented by an empty hook table.
pub struct GlobalConfig {
    pub hook: Vec<HookEntry>,
}

/// Default for a command's `stdout` flag when the configuration omits it.
pub fn default_stdout() -> (r: bool)
    ensures
        r,
{
    true
}

/// Default for a command's `stderr` flag when the configuration omits it.
pub fn default_stderr() -> (r: bool)
    ensures
        r,
{
    true
}

/// The command stored under `name`, as the first entry of the table that
/// carries that name.
pub open spec fn lookup_command(entries: Seq<CommandEntry>, name: Seq<char>) -> Option<CommandView>
    decreases entries.len(),
{
    if entries.len() == 0 {
        None
    } else if entries[0].name@ == name {
        Some(entries[0].command@)
    } else {
        lookup_command(entries.drop_first(), name)
    }
}

/// The URL of the hook stored under `name`, as the first entry of the table
/// that carries that name.
pub open spec fn lookup_hook_url(entries: Seq<HookEntry>, name: Seq<char>) -> Option<Seq<char>>
    decreases entries.len(),
{
    if entries.len() == 0 {
        None
    } else if entries[0].name@ == name {
        Some(hook_url(entries[0].hook))
    } else {
        lookup_hook_url(entries.drop_first(), name)
    }
}

impl ProjectConfig {
    /// Look a command name up in the project configuration.
    pub fn find_command<'a>(&'a self, name: &String) -> (r: Option<&'a Command>)
        ensures
            match r {
                Some(c) => lookup_command(self.cmd@, name@) == Some(c@),
                None => lookup_command(self.cmd@, name@) is None,
            },
    {
        let n = self.cmd.len();
        let mut i: usize = 0;
        proof {
            assert(self.cmd@.skip(0) =~= self.cmd@);
        }
        while i < n
            invariant
                i <= n,
                n == self.cmd@.len(),
                lookup_command(self.cmd@, name@) == lookup_command(
                    self.cmd@.skip(i as int),
                    name@,
                ),
            decreases n - i,
        {
            proof {
                assert(self.cmd@.skip(i as int).drop_first() =~= self.cmd@.skip(i as int + 1));
            }
            if self.cmd[i].name == *name {
                return Some(&self.cmd[i].command);
            }
            i += 1;
        }
        None
    }
}

impl GlobalConfig {
    /// Look a hook name up in the global configuration.
    pub fn find_hook<'a>(&'a self, name: &String) -> (r: Option<&'a Hook>)
        ensures
            match r {
                Some(h) => lookup_hook_url(self.hook@, name@) == Some(hook_url(*h)),
                None => lookup_hook_url(self.hook@, name@) is None,
            },
    {
        let n = self.hook.len();
        let mut i: usize = 0;
        proof {
            assert(self.hook@.skip(0) =~= self.hook@);
        }
        while i < n
            invariant
                i <= n,
                n == self.hook@.len(),
                lookup_hook_url(self.hook@, name@) == lookup_hook_url(
                    self.hook@.skip(i as int),
                    name@,
                ),
            decreases n - i,
        {
            proof {
                assert(self.hook@.skip(i as int).drop_first() =~= self.hook@.skip(i as int + 1));
            }
            if self.hook[i].name == *name {
                return Some(&self.hook[i].hook);
            }
            i += 1;
        }
        None
    }
}

/// The error of hook resolution: a command references a hook name that the
/// global configuration does not define.
#[derive(Debug)]
pub struct HookNotFound {
    pub name: String,
}

impl GlobalConfig {
    /// Resolve a command's hook names against the global configuration, in
    /// list order. Succeeds if and only if every name is present; otherwise
    /// reports the first missing name, before anything else happens to the
    /// command.
    pub fn resolve_hooks(&self, names: &Vec<String>) -> (r: Result<Vec<Hook>, HookNotFound>)
        ensures
            match r {
                Ok(hooks) => {
                    &&& hooks@.len() == names@.len()
                    &&& forall|i: int|
                        0 <= i < names@.len() ==> lookup_hook_url(self.hook@, names@[i]@) == Some(
                            hook_url(#[trigger] hooks@[i]),
                        )
                },
                Err(e) => exists|i: int|
                    {
                        &&& 0 <= i < names@.len()
                        &&& lookup_hook_url(self.hook@, #[trigger] names@[i]@) is None
                        &&& e.name@ == names@[i]@
                        &&& forall|j: int|
                            0 <= j < i ==> lookup_hook_url(self.hook@, #[trigger] names@[j]@) is Some
                    },
            },
    {
        let n = names.len();
        let mut hooks: Vec<Hook> = Vec::new();
        let mut i: usize = 0;
        while i < n
            invariant
                i <= n,
                n == names@.len(),
                hooks@.len() == i,
                forall|k: int|
                    0 <= k < i ==> lookup_hook_url(self.hook@, names@[k]@) == Some(
                        hook_url(#[trigger] hooks@[k]),
                    ),
            decreases n - i,
        {
            match self.find_hook(&names[i]) {
                Some(h) => {
                    hooks.push(h.clone());
                },
                None => {
                    let missing = names[i].clone();
                    proof {
                        let wi = i as int;
                        assert forall|j: int|
                            0 <= j < wi implies lookup_hook_url(
                            self.hook@,
                            #[trigger] names@[j]@,
                        ) is Some by {
                            assert(lookup_hook_url(self.hook@, names@[j]@) == Some(
                                hook_url(hooks@[j]),
                            ));
                        }
                        assert({
                            &&& 0 <= wi < names@.len()
                            &&& lookup_hook_url(self.hook@, names@[wi]@) is None
                            &&& missing@ == names@[wi]@
                            &&& forall|j: int|
                                0 <= j < wi ==> lookup_hook_url(
                                    self.hook@,
                                    #[trigger] names@[j]@,
                                ) is Some
                        });
                    }
                    return Err(HookNotFound { name: missing });
                },
            }
            i += 1;
        }
        Ok(hooks)
    }
}

} // verus!
