use makereadme::actions::{Action, ActionResult};
use makereadme::agent::{compose_iteration_prompt, history_transcript, results_transcript};
use makereadme::errors::Error;
use makereadme::memory::{HistoryEntry, Memory};
use makereadme::optlib::{OptProfile, OptimizationLevel};
use makereadme::session::{
    exit_requested, make_tree_context, AgentLoop, ChatMessage, Effect, Phase, Style,
    ACKNOWLEDGEMENT, GIVE_UP_DETAIL, LOCAL_FORMAT_REMINDER, OLLAMA_FORMAT_REMINDER, START_MESSAGE,
};

fn memory() -> Memory {
    Memory::started_at(OptProfile::default(OptimizationLevel::Off), "10:00:00".to_string())
}

fn msg(role: &str, content: &str) -> ChatMessage {
    ChatMessage { role: role.to_string(), content: content.to_string() }
}

fn ok(action: Action, content: &str) -> ActionResult {
    ActionResult { action, success: true, content: content.to_string() }
}

#[test]
fn iteration_prompt_layout() {
    let mut m = memory();
    m.history = vec![
        HistoryEntry { content: "sys".to_string(), role: "System".to_string() },
        HistoryEntry { content: "tree".to_string(), role: "System".to_string() },
        HistoryEntry { content: "<THINK>x</THINK>".to_string(), role: "Model".to_string() },
    ];
    m.execute_result = vec![
        ok(Action::Read("a".to_string()), "A"),
        ActionResult { action: Action::Read("b".to_string()), success: false, content: "B".to_string() },
    ];
    let expected = "You are a coding assistant that MUST use tags: <THINK>, <READ>, <WRITE>, <EXIT>.\n\
        Start with <THINK>. Include at least one non-THINK action until task is complete.\n\
        Never output markdown fences.\n\n\
        SYSTEM CONTEXT:\nsys\n\ntree\n\n\
        EXECUTION RESULTS:\nSuccess: A\nFailed: B\n\n\
        HISTORY:\nModel: <THINK>x</THINK>\n\n\
        Now produce the next actions.";
    assert_eq!(compose_iteration_prompt(&m, None), expected);
    assert_eq!(compose_iteration_prompt(&m, Some("MORE")), format!("{}\n\nMORE", expected));
    assert_eq!(results_transcript(&m.execute_result), "Success: A\nFailed: B");
    assert_eq!(history_transcript(&m.history), "System: sys\nSystem: tree\nModel: <THINK>x</THINK>");
}

#[test]
fn exit_detection() {
    assert!(!exit_requested(&vec![ok(Action::Think("t".to_string()), "t")]));
    assert!(exit_requested(&vec![ok(Action::Read("r".to_string()), "r"), ok(Action::Exit, "e")]));
}

#[test]
fn llmapi_loop() {
    let (mut lp, first) = AgentLoop::start(Style::Llmapi, memory(), "PROMPT", ".");
    let tree = make_tree_context(".");
    match first {
        Effect::Send(ms) => assert_eq!(
            ms,
            vec![msg("system", "PROMPT"), msg("assistant", ACKNOWLEDGEMENT), msg("user", START_MESSAGE), msg("user", &tree)]
        ),
        other => panic!("unexpected {:?}", other),
    }
    assert_eq!(lp.memory.history.len(), 5);
    match lp.on_reply("<READ>a.rs</READ>".to_string()) {
        Effect::Execute(acts) => assert_eq!(acts, vec![Action::Read("a.rs".to_string())]),
        other => panic!("unexpected {:?}", other),
    }
    match lp.on_results(vec![ok(Action::Read("a.rs".to_string()), "fn a(){}")]) {
        Effect::Send(ms) => {
            assert_eq!(ms.len(), 2);
            assert_eq!(ms[0].content, "Success: BEGINNING OF EXECUTE HISTORY\nSuccess: fn a(){}");
            assert!(ms[1].content.ends_with(&format!("User: {}", tree)));
        }
        other => panic!("unexpected {:?}", other),
    }
    assert_eq!(lp.phase, Phase::FollowUpReply);
    match lp.on_reply("<EXIT>".to_string()) {
        Effect::Execute(acts) => assert_eq!(acts, vec![Action::Exit]),
        other => panic!("unexpected {:?}", other),
    }
    assert_eq!(lp.memory.history.last().unwrap().content, "<EXIT>");
    assert!(matches!(lp.on_results(vec![ok(Action::Exit, "EXIT requested by model")]), Effect::Finish));
    assert_eq!(lp.phase, Phase::Ended);
}

#[test]
fn ollama_gives_up_after_three_empty_replies() {
    let (mut lp, first) = AgentLoop::start(Style::Ollama, memory(), "P", "t");
    assert!(matches!(first, Effect::Send(ref ms) if ms.len() == 3));
    for round in 1..=2 {
        match lp.on_reply("no tags here".to_string()) {
            Effect::Send(ms) => {
                assert_eq!(ms[1], msg("user", OLLAMA_FORMAT_REMINDER));
                assert_eq!(lp.retries, round);
            }
            other => panic!("unexpected {:?}", other),
        }
    }
    match lp.on_reply("still nothing".to_string()) {
        Effect::Fail(e) => assert_eq!(e, Error::LocalModelInferenceError(GIVE_UP_DETAIL.to_string())),
        other => panic!("unexpected {:?}", other),
    }
}

#[test]
fn ollama_counter_resets_after_a_good_reply() {
    let (mut lp, _) = AgentLoop::start(Style::Ollama, memory(), "P", "t");
    let _ = lp.on_reply("nothing".to_string());
    assert_eq!(lp.retries, 1);
    assert!(matches!(lp.on_reply("<THINK>ok</THINK>".to_string()), Effect::Execute(_)));
    assert_eq!(lp.retries, 0);
}

#[test]
fn local_loop() {
    let (mut lp, first) = AgentLoop::start(Style::Local, memory(), "SYS", "tree");
    match first {
        Effect::Generate(p, n) => {
            assert_eq!(n, 2048);
            assert!(p.contains("SYSTEM CONTEXT:\nSYS\n\nPROJECT DIRECTORY TREE:\ntree\n\n"));
        }
        other => panic!("unexpected {:?}", other),
    }
    match lp.on_reply("chatter".to_string()) {
        Effect::Generate(p, n) => {
            assert_eq!(n, 1024);
            assert!(p.ends_with(LOCAL_FORMAT_REMINDER));
            assert!(p.contains("Model: chatter"));
        }
        other => panic!("unexpected {:?}", other),
    }
    assert_eq!(lp.phase, Phase::RetryReply);
    match lp.on_reply("retry text".to_string()) {
        Effect::Generate(p, 2048) => assert!(p.contains("Model: retry text")),
        other => panic!("unexpected {:?}", other),
    }
    match lp.on_reply("<WRITE># T</WRITE>".to_string()) {
        Effect::Execute(acts) => assert_eq!(acts, vec![Action::Write("# T".to_string())]),
        other => panic!("unexpected {:?}", other),
    }
    match lp.on_results(vec![ok(Action::Write("# T".to_string()), "Successfully wrote 3 bytes to 'R.md'")]) {
        Effect::Generate(p, 2048) => {
            assert!(p.contains("Success: Successfully wrote 3 bytes to 'R.md'"));
            assert!(p.contains("Model: <WRITE># T</WRITE>"));
        }
        other => panic!("unexpected {:?}", other),
    }
}
