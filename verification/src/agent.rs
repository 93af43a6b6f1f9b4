//! What the agent tells the model between turns, and the decisions of its loop.
use vstd::prelude::*;
use vstd::string::StringExecFns;
use crate::actions::{results_model, ActionResult, ActionResultModel};
use crate::memory::{history_model, HistoryEntry, HistoryModel, Memory};
use crate::text::{chars_of, join_strings, join_with, strings_model};

verus! {

/// The line that reports one action result.
pub open spec fn result_line(r: ActionResultModel) -> Seq<char> {
    (if r.success {
        "Success"@
    } else {
        "Failed"@
    }) + ": "@ + r.content
}

/// The lines that report `results`, in order.
pub open spec fn result_lines(results: Seq<ActionResultModel>) -> Seq<Seq<char>> {
    results.map_values(|r: ActionResultModel| result_line(r))
}

/// The line that shows one history entry.
pub open spec fn dialogue_line(h: HistoryModel) -> Seq<char> {
    h.role + ": "@ + h.content
}

/// The contents of the entries of `history` whose role is `System`, in order.
pub open spec fn system_parts(history: Seq<HistoryModel>) -> Seq<Seq<char>>
    decreases history.len(),
{
    if history.len() == 0 {
        Seq::empty()
    } else if history.last().role == "System"@ {
        system_parts(history.drop_last()).push(history.last().content)
    } else {
        system_parts(history.drop_last())
    }
}

/// The lines of the entries of `history` whose role is not `System`, in order.
pub open spec fn dialogue_lines(history: Seq<HistoryModel>) -> Seq<Seq<char>>
    decreases history.len(),
{
    if history.len() == 0 {
        Seq::empty()
    } else if history.last().role == "System"@ {
        dialogue_lines(history.drop_last())
    } else {
        dialogue_lines(history.drop_last()).push(dialogue_line(history.last()))
    }
}

/// The report of `results`: one line per result.
pub open spec fn results_report(results: Seq<ActionResultModel>) -> Seq<char> {
    join_with(result_lines(results), "\n"@)
}

/// The whole of `history`: one line per entry.
pub open spec fn history_report(history: Seq<HistoryModel>) -> Seq<char> {
    join_with(history.map_values(|h: HistoryModel| dialogue_line(h)), "\n"@)
}

/// The opening instructions of every prompt for a local model.
pub open spec fn iteration_preamble() -> Seq<char> {
    "You are a coding assistant that MUST use tags: <THINK>, <READ>, <WRITE>, <EXIT>.\nStart with <THINK>. Include at least one non-THINK action until task is complete.\nNever output markdown fences.\n\nSYSTEM CONTEXT:\n"@
}

/// The prompt for the next turn of a local model with memory `history` and
/// `results`, and an optional extra instruction.
pub open spec fn iteration_prompt(
    history: Seq<HistoryModel>,
    results: Seq<ActionResultModel>,
    extra: Option<Seq<char>>,
) -> Seq<char> {
    let base = iteration_preamble() + join_with(system_parts(history), "\n\n"@)
        + "\n\nEXECUTION RESULTS:\n"@ + results_report(results) + "\n\nHISTORY:\n"@ + join_with(
        dialogue_lines(history),
        "\n"@,
    ) + "\n\nNow produce the next actions."@;
    match extra {
        None => base,
        Some(x) => base + "\n\n"@ + x,
    }
}

/// The role is exactly `System`.
fn is_system_role(role: &String) -> (b: bool)
    ensures
        b == (role@ == "System"@),
{
    let v = chars_of(role.as_str());
    proof {
        reveal_strlit("System");
        assert("System"@ =~= seq!['S', 'y', 's', 't', 'e', 'm']);
    }
    if v.len() == 6 && v[0] == 'S' && v[1] == 'y' && v[2] == 's' && v[3] == 't' && v[4] == 'e'
        && v[5] == 'm' {
        assert(v@ =~= "System"@);
        true
    } else {
        assert(v@ != "System"@ ) by {
            if v@.len() == 6 {
                assert(v@ == "System"@ ==> v@[0] == 'S' && v@[1] == 'y' && v@[2] == 's' && v@[3]
                    == 't' && v@[4] == 'e' && v@[5] == 'm');
            }
        }
        false
    }
}

/// The line that reports one action result.
fn result_line_of(r: &ActionResult) -> (s: String)
    ensures
        s@ == result_line(r@),
{
    let mut s = if r.success {
        "Success".to_owned()
    } else {
        "Failed".to_owned()
    };
    s.append(": ");
    s.append(r.content.as_str());
    s
}

/// The line that shows one history entry.
fn dialogue_line_of(h: &HistoryEntry) -> (s: String)
    ensures
        s@ == dialogue_line(h@),
{
    let mut s = h.role.clone();
    s.append(": ");
    s.append(h.content.as_str());
    s
}

/// Reports `results`, one line per result: `Success: ..` or `Failed: ..`.
pub fn results_transcript(results: &Vec<ActionResult>) -> (s: String)
    ensures
        s@ == results_report(results_model(results@)),
{
    let mut lines: Vec<String> = Vec::new();
    let n = results.len();
    for i in 0..n
        invariant
            n == results@.len(),
            strings_model(lines@) == result_lines(results_model(results@)).take(i as int),
    {
        let ghost before = strings_model(lines@);
        assert(result_lines(results_model(results@))[i as int] == result_line(results@[i as int]@));
        let line = result_line_of(&results[i]);
        let ghost lv = line@;
        lines.push(line);
        assert(strings_model(lines@) =~= before.push(lv));
        assert(strings_model(lines@) =~= result_lines(results_model(results@)).take(i + 1));
    }
    assert(result_lines(results_model(results@)).take(n as int) =~= result_lines(
        results_model(results@),
    ));
    join_strings(&lines, "\n")
}

/// Shows `history`, one line per entry: `role: content`.
pub fn history_transcript(history: &Vec<HistoryEntry>) -> (s: String)
    ensures
        s@ == history_report(history_model(history@)),
{
    let ghost all = history_model(history@).map_values(|h: HistoryModel| dialogue_line(h));
    let mut lines: Vec<String> = Vec::new();
    let n = history.len();
    for i in 0..n
        invariant
            n == history@.len(),
            all == history_model(history@).map_values(|h: HistoryModel| dialogue_line(h)),
            strings_model(lines@) == all.take(i as int),
    {
        assert(all[i as int] == dialogue_line(history@[i as int]@));
        let ghost before = strings_model(lines@);
        let line = dialogue_line_of(&history[i]);
        let ghost lv = line@;
        lines.push(line);
        assert(strings_model(lines@) =~= before.push(lv));
        assert(strings_model(lines@) =~= all.take(i + 1));
    }
    assert(all.take(n as int) =~= all);
    join_strings(&lines, "\n")
}

/// The prompt for the next turn of a local model: its instructions, the
/// `System` entries of the history, the execution results, the rest of the
/// history, and `extra_instruction` if given.
pub fn compose_iteration_prompt(memory: &Memory, extra_instruction: Option<&str>) -> (p: String)
    ensures
        p@ == iteration_prompt(
            history_model(memory.history@),
            results_model(memory.execute_result@),
            match extra_instruction {
                None => None,
                Some(x) => Some(x@),
            },
        ),
{
    let ghost h = history_model(memory.history@);
    let mut system: Vec<String> = Vec::new();
    let mut dialogue: Vec<String> = Vec::new();
    let n = memory.history.len();
    for i in 0..n
        invariant
            n == memory.history@.len(),
            h == history_model(memory.history@),
            strings_model(system@) == system_parts(h.take(i as int)),
            strings_model(dialogue@) == dialogue_lines(h.take(i as int)),
    {
        let ghost upto = h.take(i + 1);
        assert(upto.drop_last() =~= h.take(i as int));
        assert(upto.last() == memory.history@[i as int]@);
        let entry = &memory.history[i];
        if is_system_role(&entry.role) {
            system.push(entry.content.clone());
            assert(strings_model(system@) =~= system_parts(upto));
            assert(strings_model(dialogue@) =~= dialogue_lines(upto));
        } else {
            dialogue.push(dialogue_line_of(entry));
            assert(strings_model(system@) =~= system_parts(upto));
            assert(strings_model(dialogue@) =~= dialogue_lines(upto));
        }
    }
    assert(h.take(n as int) =~= h);
    let system_memory = join_strings(&system, "\n\n");
    let model_history = join_strings(&dialogue, "\n");
    let execution_results = results_transcript(&memory.execute_result);
    let mut prompt = "You are a coding assistant that MUST use tags: <THINK>, <READ>, <WRITE>, <EXIT>.\nStart with <THINK>. Include at least one non-THINK action until task is complete.\nNever output markdown fences.\n\nSYSTEM CONTEXT:\n".to_owned();
    prompt.append(system_memory.as_str());
    prompt.append("\n\nEXECUTION RESULTS:\n");
    prompt.append(execution_results.as_str());
    prompt.append("\n\nHISTORY:\n");
    prompt.append(model_history.as_str());
    prompt.append("\n\nNow produce the next actions.");
    match extra_instruction {
        Some(extra) => {
            prompt.append("\n\n");
            prompt.append(extra);
        },
        None => {},
    }
    prompt
}

} // verus!
