use servicio::detect::{
    detect_all, folder_group, Crontab, Detector, Generic, Laravel, Node, Procfile, ProjectFiles, Python, Tasks,
};
use servicio::laravel::queue_connection_of;
use servicio::jsonc::{strip_comments, strip_jsonc, strip_trailing_commas};
use servicio::worker::{OverlapPolicy, RunMode, Schedule};

fn files(root: &str) -> ProjectFiles {
    ProjectFiles {
        root: root.to_string(),
        entries: Vec::new(),
        composer_json: String::new(),
        procfile: None,
        vscode_tasks: None,
        package_json: None,
        crontab: None,
        dotenv: None,
    }
}

fn with_entries(root: &str, names: &[&str]) -> ProjectFiles {
    let mut f = files(root);
    f.entries = names.iter().map(|n| n.to_string()).collect();
    f
}

fn tasks_doc(text: &str) -> String {
    text.to_string()
}

#[test]
fn detects_queue_and_scheduler_when_artisan_present() {
    let mut f = with_entries("/srv/app", &["artisan"]);
    let s = Laravel.detect(&f);
    assert!(s.iter().any(|d| d.args == vec!["artisan", "queue:work"]));
    assert!(s.iter().any(|d| matches!(d.run_mode, RunMode::Scheduled { .. })));
}

#[test]
fn no_artisan_no_suggestions() {
    assert!(Laravel.detect(&files("/srv/app")).is_empty());
}

#[test]
fn horizon_detected_from_composer() {
    let mut f = with_entries("/srv/app", &["artisan"]);
    f.composer_json = r#"{"require":{"laravel/horizon":"^5"}}"#.to_string();
    let s = Laravel.detect(&f);
    assert!(s.iter().any(|d| d.args == vec!["artisan", "horizon"]));
}

#[test]
fn laravel_suggestions_in_full() {
    let mut f = with_entries("/srv/app", &["artisan"]);
    f.composer_json = r#"{"require":{"laravel/reverb":"^1"}}"#.to_string();
    let s = Laravel.detect(&f);
    assert_eq!(s.len(), 3);
    assert_eq!(s[0].name, "laravel-queue-worker");
    assert_eq!(s[0].run_mode, RunMode::Daemon { concurrency: 2 });
    assert_eq!(s[0].source, "laravel/artisan");
    assert_eq!(s[1].name, "laravel-scheduler");
    assert_eq!(
        s[1].run_mode,
        RunMode::Scheduled { schedule: Schedule::Cron("* * * * *".to_string()), overlap: OverlapPolicy::Skip }
    );
    assert_eq!(s[2].args, vec!["artisan", "reverb:start"]);
    assert_eq!(s[2].working_dir, "/srv/app");
}

#[test]
fn generic_always_suggests_one_draft() {
    let s = Generic.detect(&files("/srv/empty"));
    assert_eq!(s.len(), 1);
    assert_eq!(s[0].source, "generic");
}

#[test]
fn detect_all_includes_generic_on_empty_dir() {
    let all = detect_all(&files("/srv/empty"));
    assert!(all.iter().any(|s| s.source == "generic"));
}

#[test]
fn detect_all_dedups_identical_commands() {
    // Procfile + Python both suggest the same script; no exact duplicate remains.
    let mut f = with_entries("/srv/py", &["Procfile", "worker.py", "requirements.txt"]);
    f.procfile = Some("worker: python worker.py\n".to_string());
    assert!(Python.detect(&f).iter().any(|s| s.command == "python" && s.args == vec!["worker.py".to_string()]));
    let all = detect_all(&f);
    let count = all.iter().filter(|s| s.command == "python" && s.args == vec!["worker.py".to_string()]).count();
    assert_eq!(count, 1);
}

#[test]
fn detect_all_drops_a_later_duplicate() {
    let mut f = files("/srv/p");
    f.procfile = Some("a: node x.js\nb: node x.js\n".to_string());
    let all = detect_all(&f);
    assert_eq!(all.len(), 2);
    assert_eq!(all[0].name, "a");
    assert_eq!(all[1].source, "generic");
    assert_eq!(all[1].group, Some("p".to_string()));
}

#[test]
fn parses_each_line() {
    let mut f = files("/srv/node");
    f.procfile = Some("web: node server.js\nworker: node worker.js\n".to_string());
    let s = Procfile.detect(&f);
    assert_eq!(s.len(), 2);
    assert_eq!(s[1].name, "worker");
    assert_eq!(s[1].command, "node");
    assert_eq!(s[1].args, vec!["worker.js".to_string()]);
}

#[test]
fn parses_jsonc_tasks() {
    let mut f = files("/srv/app");
    f.vscode_tasks = Some(tasks_doc(
        r#"{
  // build tasks
  "version": "2.0.0",
  "tasks": [
    { "label": "queue", "type": "shell", "command": "php", "args": ["artisan", "queue:work"], },
  ]
}"#,
    ));
    let s = Tasks.detect(&f);
    assert_eq!(s.len(), 1);
    assert_eq!(s[0].command, "php");
    assert_eq!(s[0].args, vec!["artisan".to_string(), "queue:work".to_string()]);
    assert!(s[0].tags.contains(&"vscode-task".to_string()));
    assert_eq!(s[0].label, "Task: queue");
    assert_eq!(s[0].name, "task-queue");
}

#[test]
fn shell_metachars_wrap_in_sh_c() {
    let mut f = files("/srv/app");
    f.vscode_tasks = Some(tasks_doc(
        r#"{
  "tasks": [
    { "label": "pipe", "command": "cat foo | grep bar" }
  ]
}"#,
    ));
    let s = Tasks.detect(&f);
    assert_eq!(s.len(), 1);
    assert_eq!(s[0].command, "sh");
    assert_eq!(s[0].args, vec!["-c".to_string(), "cat foo | grep bar".to_string()]);
}

#[test]
fn skips_entries_missing_command() {
    let mut f = files("/srv/app");
    f.vscode_tasks = Some(tasks_doc(
        r#"{
  "tasks": [
    { "label": "no-command" },
    { "label": "ok", "command": "echo" }
  ]
}"#,
    ));
    let s = Tasks.detect(&f);
    assert_eq!(s.len(), 1);
    assert_eq!(s[0].command, "echo");
}

#[test]
fn no_tasks_file_no_suggestions() {
    assert!(Tasks.detect(&files("/srv/app")).is_empty());
}

#[test]
fn python_suggests_entry_scripts_of_a_python_project() {
    let f = with_entries("/srv/py", &["pyproject.toml", "worker.py", "main.py", "README.md"]);
    let s = Python.detect(&f);
    assert_eq!(s.len(), 2);
    assert_eq!((s[0].command.as_str(), s[0].args.clone()), ("python", vec!["main.py".to_string()]));
    assert_eq!(s[1].name, "worker");
    assert_eq!(s[1].source, "python");
    assert!(Python.detect(&with_entries("/srv/x", &["worker.py"])).is_empty());
}

#[test]
fn node_suggests_package_scripts() {
    let mut f = files("/srv/web");
    f.package_json = Some(r#"{"name":"web","scripts":{"dev":"vite","start":"node server.js"}}"#.to_string());
    let s = Node.detect(&f);
    assert_eq!(s.len(), 2);
    assert_eq!(s[0].command, "npm");
    assert_eq!(s[0].args, vec!["run".to_string(), "dev".to_string()]);
    assert_eq!(s[1].label, "npm run start");
    f.package_json = Some("not json".to_string());
    assert!(Node.detect(&f).is_empty());
}

#[test]
fn crontab_entries_become_scheduled_workers() {
    let mut f = files("/srv/jobs");
    f.crontab = Some("# nightly\n0 3 * * * php artisan backup:run --quiet\nSHELL=/bin/sh\n".to_string());
    let s = Crontab.detect(&f);
    assert_eq!(s.len(), 1);
    assert_eq!(s[0].command, "php");
    assert_eq!(s[0].args, vec!["artisan".to_string(), "backup:run".to_string(), "--quiet".to_string()]);
    assert_eq!(
        s[0].run_mode,
        RunMode::Scheduled { schedule: Schedule::Cron("0 3 * * *".to_string()), overlap: OverlapPolicy::Skip }
    );
    assert_eq!(s[0].name, "cron-1");
}

#[test]
fn folder_group_is_last_component() {
    assert_eq!(folder_group("/srv/app"), Some("app".to_string()));
    assert_eq!(folder_group("/srv/app/"), Some("app".to_string()));
    assert_eq!(folder_group("/"), None);
    assert_eq!(folder_group("/srv/.."), None);
}

#[test]
fn jsonc_comments_and_commas_are_removed() {
    assert_eq!(strip_comments("{\"a\": 1 // c\n}"), "{\"a\": 1 \n}");
    assert_eq!(strip_comments("/* x */[1]"), "[1]");
    assert_eq!(strip_comments("\"// kept\""), "\"// kept\"");
    assert_eq!(strip_trailing_commas("[1, 2, ]"), "[1, 2 ]");
    assert_eq!(strip_trailing_commas("{\"a\": \",}\"}"), "{\"a\": \",}\"}");
    assert_eq!(strip_jsonc("[1, /* two */ 2,\n// end\n]"), "[1,  2\n\n]");
    assert_eq!(strip_jsonc(r#"["é"]"#), r#"["é"]"#);
    assert_eq!(strip_trailing_commas(r#"[",]", 1,]"#), r#"[",]", 1]"#);
    assert_eq!(strip_comments("[\"日本\", /* x */ 2]"), "[\"日本\",  2]");
}

#[test]
fn scanner_names() {
    let names = [
        Laravel.name(),
        Python.name(),
        Node.name(),
        Procfile.name(),
        Crontab.name(),
        Tasks.name(),
        Generic.name(),
    ];
    assert_eq!(names, ["laravel", "python", "node", "procfile", "crontab", "vscode-tasks", "generic"]);
}

#[test]
fn laravel_queue_worker_uses_the_configured_connection() {
    let mut f = with_entries("/srv/app", &["artisan", ".env"]);
    f.dotenv = Some("APP_NAME=Shop\n  QUEUE_CONNECTION=\"redis\" \nQUEUE_CONNECTION=sqs\n".to_string());
    let s = Laravel.detect(&f);
    assert_eq!(s[0].args, vec!["artisan", "queue:work", "redis"]);
    assert_eq!(s[1].args, vec!["artisan", "schedule:run"]);
    let all = detect_all(&f);
    assert_eq!(all[0].args, vec!["artisan", "queue:work", "redis"]);
}

#[test]
fn queue_connection_is_read_from_dotenv_lines() {
    assert_eq!(queue_connection_of("QUEUE_CONNECTION=database"), Some("database".to_string()));
    assert_eq!(queue_connection_of("DB_HOST=x\r\nQUEUE_CONNECTION='sync'\r\n"), Some("sync".to_string()));
    assert_eq!(queue_connection_of("QUEUE_CONNECTION=\nQUEUE_CONNECTION=redis"), Some("redis".to_string()));
    assert_eq!(queue_connection_of("# QUEUE_CONNECTION=redis\nQUEUE_CONNECTIONS=x"), None);
    assert_eq!(queue_connection_of(""), None);
}

#[test]
fn laravel_without_dotenv_keeps_plain_queue_work() {
    let f = with_entries("/srv/app", &["artisan"]);
    assert_eq!(Laravel.detect(&f)[0].args, vec!["artisan", "queue:work"]);
}
