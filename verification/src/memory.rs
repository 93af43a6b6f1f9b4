//! The agent's working memory: the conversation history, the results of
//! executed actions and free-form notes.  Both histories are bounded by the
//! profile's limits: once full, an entry is dropped from near the end, so the
//! oldest entries (the system instructions) stay.
use vstd::prelude::*;
use vstd::string::StringExecFns;
use crate::actions::{results_model, Action, ActionResult, ActionResultModel};
use crate::clock::{is_clock_time, local_time_of_day};
use crate::optlib::OptProfile;

verus! {

/// One turn of the conversation: who said it and what was said.
#[derive(Debug, Clone, PartialEq, Eq)]
pub struct HistoryEntry {
    pub content: String,
    pub role: String,
}

/// A history entry as a mathematical value.
pub struct HistoryModel {
    pub content: Seq<char>,
    pub role: Seq<char>,
}

impl View for HistoryEntry {
    type V = HistoryModel;

    open spec fn view(&self) -> HistoryModel {
        HistoryModel { content: self.content@, role: self.role@ }
    }
}

/// The models of a sequence of history entries.
pub open spec fn history_model(v: Seq<HistoryEntry>) -> Seq<HistoryModel> {
    v.map_values(|h: HistoryEntry| h@)
}

/// `s` with `x` added last, where a sequence already holding `limit` or more
/// items first loses its item at index `limit - 3`.
pub open spec fn bounded_append<T>(s: Seq<T>, limit: nat, x: T) -> Seq<T> {
    if s.len() >= limit {
        s.remove(limit - 3).push(x)
    } else {
        s.push(x)
    }
}

/// The agent's memory.
pub struct Memory {
    pub history: Vec<HistoryEntry>,
    pub execute_result: Vec<ActionResult>,
    pub agentic_notes: Vec<String>,
    pub opt_profile: OptProfile,
}

/// The first history entry of a memory started at time of day `time`.
pub open spec fn start_entry(time: Seq<char>) -> HistoryModel {
    HistoryModel { content: "MEMORY STARTED AT : "@ + time, role: "User"@ }
}

/// The first execution result of every memory.
pub open spec fn start_result() -> ActionResultModel {
    ActionResultModel {
        action: crate::actions::ActionModel::Read(Seq::empty()),
        success: true,
        content: "BEGINNING OF EXECUTE HISTORY"@,
    }
}

impl Memory {
    /// A fresh memory with profile `opt_profile`, stamped with the current time of day.
    pub fn default(opt_profile: OptProfile) -> (m: Memory)
        ensures
            exists|t: Seq<char>| is_clock_time(t) && history_model(m.history@) == seq![start_entry(t)],
            results_model(m.execute_result@) == seq![start_result()],
            m.agentic_notes@.len() == 0,
            m.opt_profile == opt_profile,
    {
        let time = local_time_of_day();
        Memory::started_at(opt_profile, time)
    }

    /// A fresh memory with profile `opt_profile`, stamped with `time`.
    pub fn started_at(opt_profile: OptProfile, time: String) -> (m: Memory)
        ensures
            history_model(m.history@) == seq![start_entry(time@)],
            results_model(m.execute_result@) == seq![start_result()],
            m.agentic_notes@.len() == 0,
            m.opt_profile == opt_profile,
    {
        let mut content = "MEMORY STARTED AT : ".to_owned();
        content.append(time.as_str());
        let mut history: Vec<HistoryEntry> = Vec::new();
        history.push(HistoryEntry { content, role: "User".to_owned() });
        let mut execute_result: Vec<ActionResult> = Vec::new();
        execute_result.push(
            ActionResult {
                action: Action::Read(String::new()),
                success: true,
                content: "BEGINNING OF EXECUTE HISTORY".to_owned(),
            },
        );
        let m = Memory { history, execute_result, agentic_notes: Vec::new(), opt_profile };
        assert(history_model(m.history@) =~= seq![start_entry(time@)]);
        assert(results_model(m.execute_result@) =~= seq![start_result()]);
        m
    }

    /// Adds `entry` to the conversation history, within the history limit.
    pub fn append_to_history(&mut self, entry: HistoryEntry)
        requires
            old(self).opt_profile.history_limit >= 3,
        ensures
            history_model(final(self).history@) == bounded_append(
                history_model(old(self).history@),
                old(self).opt_profile.history_limit as nat,
                entry@,
            ),
            final(self).execute_result == old(self).execute_result,
            final(self).agentic_notes == old(self).agentic_notes,
            final(self).opt_profile == old(self).opt_profile,
    {
        let row_to_be_removed = self.opt_profile.history_limit - 3;
        let ghost before = history_model(self.history@);
        if self.history.len() >= self.opt_profile.history_limit {
            self.history.remove(row_to_be_removed);
        }
        let ghost mid = history_model(self.history@);
        self.history.push(entry);
        assert(history_model(self.history@) =~= mid.push(entry@));
        proof {
            if before.len() >= self.opt_profile.history_limit {
                assert(mid =~= before.remove(row_to_be_removed as int));
            } else {
                assert(mid =~= before);
            }
        }
    }

    /// Adds `action_result` to the execution history, within the result limit.
    pub fn append_to_result(&mut self, action_result: ActionResult)
        requires
            old(self).opt_profile.result_history_limit >= 3,
        ensures
            results_model(final(self).execute_result@) == bounded_append(
                results_model(old(self).execute_result@),
                old(self).opt_profile.result_history_limit as nat,
                action_result@,
            ),
            final(self).history == old(self).history,
            final(self).agentic_notes == old(self).agentic_notes,
            final(self).opt_profile == old(self).opt_profile,
    {
        let row_to_be_removed = self.opt_profile.result_history_limit - 3;
        let ghost before = results_model(self.execute_result@);
        if self.execute_result.len() >= self.opt_profile.result_history_limit {
            self.execute_result.remove(row_to_be_removed);
        }
        let ghost mid = results_model(self.execute_result@);
        self.execute_result.push(action_result);
        assert(results_model(self.execute_result@) =~= mid.push(action_result@));
        proof {
            if before.len() >= self.opt_profile.result_history_limit {
                assert(mid =~= before.remove(row_to_be_removed as int));
            } else {
                assert(mid =~= before);
            }
        }
    }

    /// Adds `note` to the notes.
    pub fn append_to_agentic_notes(&mut self, note: String)
        ensures
            final(self).agentic_notes@ == old(self).agentic_notes@.push(note),
            final(self).history == old(self).history,
            final(self).execute_result == old(self).execute_result,
            final(self).opt_profile == old(self).opt_profile,
    {
        self.agentic_notes.push(note);
    }
}

} // verus!
