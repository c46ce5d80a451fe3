use kozutsumi::entry::Entry;
use kozutsumi::launch::{launch_invocation, LaunchBatch};

fn strings(v: &[&str]) -> Vec<String> {
    v.iter().map(|s| s.to_string()).collect()
}

#[test]
fn app_opens_by_name() {
    let invocation = launch_invocation(&Entry::App("Safari".to_string()));
    assert_eq!(invocation.program, "open".to_string());
    assert_eq!(invocation.args, strings(&["-a", "Safari"]));
}

#[test]
fn file_opens_by_path() {
    let invocation = launch_invocation(&Entry::File("/tmp/notes.txt".to_string()));
    assert_eq!(invocation.program, "open".to_string());
    assert_eq!(invocation.args, strings(&["/tmp/notes.txt"]));
}

#[test]
fn url_opens_by_address() {
    let invocation = launch_invocation(&Entry::Url("https://example.com/".to_string()));
    assert_eq!(invocation.program, "open".to_string());
    assert_eq!(invocation.args, strings(&["https://example.com/"]));
}

#[test]
fn shell_runs_through_sh() {
    let invocation = launch_invocation(&Entry::Shell("echo hi".to_string()));
    assert_eq!(invocation.program, "sh".to_string());
    assert_eq!(invocation.args, strings(&["-c", "echo hi"]));
}

#[test]
fn failed_entry_does_not_stop_the_batch() {
    let entries = vec![
        Entry::App("first".to_string()),
        Entry::App("missing".to_string()),
        Entry::App("third".to_string()),
    ];
    let mut batch = LaunchBatch::new(entries);
    let mut attempted = Vec::new();
    while let Some(entry) = batch.next_entry() {
        let ok = entry != Entry::App("missing".to_string());
        attempted.push(entry);
        batch.record(ok);
    }
    assert_eq!(attempted.len(), 3);
    assert_eq!(batch.attempted(), 3);
    assert_eq!(batch.failures(), 1);
    assert_eq!(attempted[2], Entry::App("third".to_string()));
}

#[test]
fn empty_batch_attempts_nothing() {
    let mut batch = LaunchBatch::new(Vec::new());
    assert!(batch.next_entry().is_none());
    assert_eq!(batch.attempted(), 0);
    assert_eq!(batch.failures(), 0);
}
