use makereadme::actions::{Action, ActionResult};
use makereadme::memory::{HistoryEntry, Memory};
use makereadme::optlib::{OptProfile, OptimizationLevel, OPTLEVEL_NONE_PROMPT};
use makereadme::prompt::{Prompt, DEFAULT_PROMPT};

fn entry(n: usize) -> HistoryEntry {
    HistoryEntry { content: format!("m{}", n), role: "User".to_string() }
}

#[test]
fn profiles_by_level() {
    let cases = [
        (OptimizationLevel::Off, 9),
        (OptimizationLevel::Basic, 6),
        (OptimizationLevel::Medium, 5),
        (OptimizationLevel::Aggressive, 4),
    ];
    for (level, limit) in cases {
        let p = OptProfile::default(level);
        assert_eq!(p.history_limit, limit);
        assert_eq!(p.result_history_limit, limit);
        assert_eq!(p.prompt, OPTLEVEL_NONE_PROMPT);
    }
    assert!(OPTLEVEL_NONE_PROMPT.contains("SYSTEM INSTRUCTION"));
}

#[test]
fn default_prompt_text() {
    let p = Prompt::default();
    assert_eq!(p.content, DEFAULT_PROMPT);
    assert!(p.content.contains("MAKEREADME AGENT"));
}

#[test]
fn fresh_memory_is_stamped() {
    let m = Memory::default(OptProfile::default(OptimizationLevel::Basic));
    assert_eq!(m.history.len(), 1);
    let first = &m.history[0];
    assert_eq!(first.role, "User");
    let time = first.content.strip_prefix("MEMORY STARTED AT : ").unwrap();
    assert_eq!(time.len(), 8);
    assert_eq!(&time[2..3], ":");
    assert_eq!(&time[5..6], ":");
    assert_eq!(
        m.execute_result,
        vec![ActionResult {
            action: Action::Read(String::new()),
            success: true,
            content: "BEGINNING OF EXECUTE HISTORY".to_string()
        }]
    );
    assert!(m.agentic_notes.is_empty());
}

#[test]
fn history_is_bounded_and_keeps_its_head() {
    let mut m = Memory::started_at(OptProfile::default(OptimizationLevel::Aggressive), "12:00:00".to_string());
    for i in 1..=6 {
        m.append_to_history(entry(i));
    }
    let contents: Vec<&str> = m.history.iter().map(|h| h.content.as_str()).collect();
    // limit 4: once full, the entry at index 1 is dropped before each push.
    assert_eq!(contents, vec!["MEMORY STARTED AT : 12:00:00", "m4", "m5", "m6"]);
}

#[test]
fn results_are_bounded() {
    let mut m = Memory::started_at(OptProfile::default(OptimizationLevel::Aggressive), "00:00:00".to_string());
    for i in 0..5 {
        m.append_to_result(ActionResult { action: Action::Exit, success: true, content: format!("r{}", i) });
    }
    let contents: Vec<&str> = m.execute_result.iter().map(|r| r.content.as_str()).collect();
    assert_eq!(contents, vec!["BEGINNING OF EXECUTE HISTORY", "r2", "r3", "r4"]);
}

#[test]
fn notes_accumulate() {
    let mut m = Memory::started_at(OptProfile::default(OptimizationLevel::Off), "00:00:00".to_string());
    m.append_to_agentic_notes("a".to_string());
    m.append_to_agentic_notes("b".to_string());
    assert_eq!(m.agentic_notes, vec!["a".to_string(), "b".to_string()]);
    assert_eq!(m.history.len(), 1);
}
