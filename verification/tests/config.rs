use ciallo::config::default_stderr;
use ciallo::config::default_stdout;
use ciallo::config::Command;
use ciallo::config::CommandEntry;
use ciallo::config::FeishuHook;
use ciallo::config::GlobalConfig;
use ciallo::config::Hook;
use ciallo::config::HookEntry;
use ciallo::config::ProjectConfig;

fn hook(url: &str) -> Hook {
    Hook::Feishu(FeishuHook { webhook_url: url.to_string() })
}

fn hook_url_of(h: &Hook) -> &str {
    match h {
        Hook::Feishu(f) => &f.webhook_url,
    }
}

fn global(entries: &[(&str, &str)]) -> GlobalConfig {
    GlobalConfig {
        hook: entries
            .iter()
            .map(|(name, url)| HookEntry { name: name.to_string(), hook: hook(url) })
            .collect(),
    }
}

#[test]
fn stream_flags_default_to_enabled() {
    assert!(default_stdout());
    assert!(default_stderr());
}

#[test]
fn find_command_by_name() {
    let project = ProjectConfig {
        cmd: vec![
            CommandEntry {
                name: "build".to_string(),
                command: Command {
                    command: "cargo build".to_string(),
                    stdout: true,
                    stderr: false,
                    hooks: vec!["team".to_string()],
                },
            },
        ],
    };
    let found = project.find_command(&"build".to_string()).unwrap();
    assert_eq!(found.command, "cargo build");
    assert!(found.stdout);
    assert!(!found.stderr);
    assert_eq!(found.hooks, vec!["team".to_string()]);
    assert!(project.find_command(&"test".to_string()).is_none());
}

#[test]
fn find_hook_by_name() {
    let g = global(&[("team", "http://one.example/hook"), ("ops", "http://two.example/hook")]);
    let h = g.find_hook(&"ops".to_string()).unwrap();
    assert_eq!(hook_url_of(h), "http://two.example/hook");
    assert!(g.find_hook(&"nobody".to_string()).is_none());
}

#[test]
fn resolve_keeps_hook_list_order() {
    let g = global(&[("a", "http://a.example"), ("b", "http://b.example")]);
    let names = vec!["b".to_string(), "a".to_string(), "b".to_string()];
    let resolved = g.resolve_hooks(&names).unwrap();
    let urls: Vec<&str> = resolved.iter().map(hook_url_of).collect();
    assert_eq!(urls, vec!["http://b.example", "http://a.example", "http://b.example"]);
}

#[test]
fn scenario_missing_hook_fails_before_spawn() {
    let g = global(&[("ops", "http://two.example/hook")]);
    let names = vec!["ops".to_string(), "team".to_string()];
    let err = g.resolve_hooks(&names).unwrap_err();
    assert_eq!(err.name, "team");
}

#[test]
fn resolve_reports_first_missing_name() {
    let g = global(&[]);
    let names = vec!["first".to_string(), "second".to_string()];
    let err = g.resolve_hooks(&names).unwrap_err();
    assert_eq!(err.name, "first");
}

#[test]
fn resolve_no_hooks_is_empty() {
    let g = global(&[]);
    let resolved = g.resolve_hooks(&Vec::new()).unwrap();
    assert!(resolved.is_empty());
}
