use makereadme::actions::{Action, ActionResult};
use makereadme::executor::{build_context_from_results, plan_action, ActionRun, IoOutcome, IoRequest};
use makereadme::tree::DirNode;

fn result(action: Action, success: bool, content: &str) -> ActionResult {
    ActionResult { action, success, content: content.to_string() }
}

#[test]
fn plans_follow_the_action() {
    assert_eq!(plan_action(&Action::Think("t".to_string())), IoRequest::Nothing);
    assert_eq!(plan_action(&Action::Exit), IoRequest::Nothing);
    assert_eq!(plan_action(&Action::Read(" . ".to_string())), IoRequest::ListProject);
    assert_eq!(plan_action(&Action::Read("/".to_string())), IoRequest::ListProject);
    assert_eq!(plan_action(&Action::Read(" src ".to_string())), IoRequest::ReadPath("src".to_string()));
    assert_eq!(plan_action(&Action::Write("x".to_string())), IoRequest::AppendOutput("x".to_string()));
}

#[test]
fn run_records_one_result_per_action_in_order() {
    let actions = vec![
        Action::Think("plan".to_string()),
        Action::Read("Cargo.toml".to_string()),
        Action::Read("missing.rs".to_string()),
        Action::Read(".".to_string()),
        Action::Write("héllo".to_string()),
        Action::Write("x".to_string()),
        Action::Exit,
    ];
    let mut run = ActionRun::new(actions, "README.md");
    let mut outcomes = vec![
        IoOutcome::Nothing,
        IoOutcome::FileText("[package]".to_string()),
        IoOutcome::ReadFailed("No such file or directory (os error 2)".to_string()),
        IoOutcome::Listing(vec![DirNode { name: "src".to_string(), is_dir: true, children: Vec::new() }]),
        IoOutcome::Written,
        IoOutcome::OpenFailed("Permission denied (os error 13)".to_string()),
        IoOutcome::Nothing,
    ]
    .into_iter();
    while !run.is_done() {
        let _ = run.next_request();
        run.deliver(outcomes.next().unwrap());
    }
    let results = run.into_results();
    assert_eq!(
        results,
        vec![
            result(Action::Think("plan".to_string()), true, "plan"),
            result(Action::Read("Cargo.toml".to_string()), true, "[package]"),
            result(
                Action::Read("missing.rs".to_string()),
                false,
                "ERROR: Could not read file 'missing.rs': No such file or directory (os error 2)"
            ),
            result(Action::Read(".".to_string()), true, ".\n└── src/"),
            result(Action::Write("héllo".to_string()), true, "Successfully wrote 6 bytes to 'README.md'"),
            result(
                Action::Write("x".to_string()),
                false,
                "ERROR: Could not open 'README.md': Permission denied (os error 13)"
            ),
            result(Action::Exit, true, "EXIT requested by model"),
        ]
    );
}

#[test]
fn directory_read_is_labelled_with_its_path() {
    let mut run = ActionRun::new(vec![Action::Read(" docs ".to_string())], "out.md");
    run.deliver(IoOutcome::Listing(vec![DirNode { name: "a.md".to_string(), is_dir: false, children: Vec::new() }]));
    assert_eq!(run.into_results()[0].content, "docs\n└── a.md");
}

#[test]
fn write_failures_name_the_output_file() {
    let mut run = ActionRun::new(vec![Action::Write("a".to_string()), Action::Write("b".to_string())], "out.md");
    run.deliver(IoOutcome::DirCreateFailed("e1".to_string()));
    run.deliver(IoOutcome::WriteFailed("e2".to_string()));
    let r = run.into_results();
    assert_eq!(r[0].content, "ERROR: Could not create parent directories for 'out.md': e1");
    assert_eq!(r[1].content, "ERROR: Could not write to 'out.md': e2");
    assert!(!r[0].success && !r[1].success);
}

#[test]
fn written_byte_count_is_decimal() {
    let text = "x".repeat(1234);
    let mut run = ActionRun::new(vec![Action::Write(text)], "R.md");
    run.deliver(IoOutcome::Written);
    assert_eq!(run.into_results()[0].content, "Successfully wrote 1234 bytes to 'R.md'");
}

#[test]
fn context_skips_thinking() {
    let results = vec![
        result(Action::Think("secret plan".to_string()), true, "secret plan"),
        result(Action::Read("a.rs".to_string()), true, "fn main() {}"),
        result(Action::Read("b.rs".to_string()), false, "ERROR: nope"),
        result(Action::Write("x".to_string()), true, "Successfully wrote 1 bytes to 'R.md'"),
        result(Action::Write("y".to_string()), false, "ERROR: Could not open 'R.md': denied"),
        result(Action::Exit, true, "EXIT requested by model"),
    ];
    assert_eq!(
        build_context_from_results(&results),
        "--- FILE: a.rs ---\nfn main() {}\n--- END FILE ---\n\n\
         --- FILE: b.rs ---\nERROR: nope\n--- END FILE ---\n\n\
         Successfully wrote 1 bytes to 'R.md'\n\n\
         WRITE ERROR: ERROR: Could not open 'R.md': denied\n\n\
         EXIT requested by model\n\n"
    );
    assert_eq!(build_context_from_results(&results[..1]), "");
}

#[test]
fn run_accepts_only_answers_to_the_pending_request() {
    let mut run = ActionRun::new(vec![Action::Read(" . ".to_string()), Action::Write("x".to_string())], "out.md");
    assert!(!run.accepts(&IoOutcome::FileText("t".to_string())));
    assert!(!run.accepts(&IoOutcome::Written));
    assert!(run.accepts(&IoOutcome::Listing(Vec::new())));
    run.deliver(IoOutcome::Listing(Vec::new()));
    assert_eq!(run.next_request(), IoRequest::AppendOutput("x".to_string()));
    assert!(!run.accepts(&IoOutcome::Nothing));
    assert!(run.accepts(&IoOutcome::WriteFailed("e".to_string())));
    run.deliver(IoOutcome::Written);
    assert!(!run.accepts(&IoOutcome::Nothing));
}
