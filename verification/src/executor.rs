//! Carrying out the actions of one reply.
//!
//! Reading and writing files is done outside this library: an `ActionRun`
//! names, for each action in turn, the input or output it needs
//! (`IoRequest`), is handed what came of it (`IoOutcome`), and records the
//! action's result.  THINK and EXIT need nothing and succeed at once.
use vstd::prelude::*;
use vstd::string::StringExecFns;
use crate::actions::{
    copy_action, results_model, actions_model, Action, ActionModel, ActionResult,
    ActionResultModel,
};
use crate::text::{decimal, decimal_string, trim, trim_bounds, chars_of, string_from_range, byte_count};
use crate::tree::{render_directory_tree, tree_listing, DirNode, MAX_TREE_DEPTH, MAX_TREE_ENTRIES};

verus! {

/// The input or output an action needs.
#[derive(Debug, PartialEq, Eq)]
pub enum IoRequest {
    /// Nothing: the action is THINK or EXIT.
    Nothing,
    /// The entries of the project directory (a READ of `.` or `/`).
    ListProject,
    /// What stands at this path under the project directory: the entries of a
    /// directory, or the text of a file.
    ReadPath(String),
    /// Append this text to the output file (made if it is missing): the file
    /// then holds its old text followed by this text (`output_after`).
    AppendOutput(String),
}

/// What came of an `IoRequest`.
#[derive(Debug)]
pub enum IoOutcome {
    /// Answer to `Nothing`.
    Nothing,
    /// The entries of the directory that was asked for.
    Listing(Vec<DirNode>),
    /// The text of the file that was asked for.
    FileText(String),
    /// The file could not be read; the error's text.
    ReadFailed(String),
    /// The text was appended to the output file, as `output_after` says.
    Written,
    /// The output file's parent directories could not be made; the error's text.
    DirCreateFailed(String),
    /// The output file could not be opened; the error's text.
    OpenFailed(String),
    /// The output file could not be written; the error's text.
    WriteFailed(String),
}

/// `request` is what `action` needs.
pub open spec fn request_for(action: ActionModel, request: IoRequest) -> bool {
    match action {
        ActionModel::Think(_) => request is Nothing,
        ActionModel::Exit => request is Nothing,
        ActionModel::Read(path) => if trim(path) == "."@ || trim(path) == "/"@ {
            request is ListProject
        } else {
            request matches IoRequest::ReadPath(p) && p@ == trim(path)
        },
        ActionModel::Write(text) => request matches IoRequest::AppendOutput(t) && t@ == text,
    }
}

/// The output file's text after `request` was carried out, when it held
/// `before`: an append adds its text at the end, nothing else touches the file.
pub open spec fn output_after(request: IoRequest, before: Seq<char>) -> Seq<char> {
    match request {
        IoRequest::AppendOutput(t) => before + t@,
        _ => before,
    }
}

/// The output file's text after each of `requests`, in order, was carried
/// out and every append succeeded, when it held `before`.
pub open spec fn output_after_all(requests: Seq<IoRequest>, before: Seq<char>) -> Seq<char>
    decreases requests.len(),
{
    if requests.len() == 0 {
        before
    } else {
        output_after(requests.last(), output_after_all(requests.drop_last(), before))
    }
}

/// The texts of the WRITE actions of `actions`, one after the other.
pub open spec fn written_texts(actions: Seq<ActionModel>) -> Seq<char>
    decreases actions.len(),
{
    if actions.len() == 0 {
        Seq::empty()
    } else {
        written_texts(actions.drop_last()) + match actions.last() {
            ActionModel::Write(t) => t,
            _ => Seq::empty(),
        }
    }
}

/// `outcome` answers the request of `action`.
pub open spec fn answers(action: ActionModel, outcome: IoOutcome) -> bool {
    match action {
        ActionModel::Think(_) => outcome is Nothing,
        ActionModel::Exit => outcome is Nothing,
        ActionModel::Read(path) => if trim(path) == "."@ || trim(path) == "/"@ {
            outcome is Listing
        } else {
            outcome is Listing || outcome is FileText || outcome is ReadFailed
        },
        ActionModel::Write(_) => outcome is Written || outcome is DirCreateFailed
            || outcome is OpenFailed || outcome is WriteFailed,
    }
}

/// The heading of the listing a READ of `path` gives.
pub open spec fn listing_label(path: Seq<char>) -> Seq<char> {
    if trim(path) == "."@ || trim(path) == "/"@ {
        "."@
    } else {
        trim(path)
    }
}

/// The text of a result of `action` with `outcome`, when `output_file` is written to.
pub open spec fn result_text(action: ActionModel, outcome: IoOutcome, output_file: Seq<char>) -> Seq<char> {
    match action {
        ActionModel::Think(thought) => thought,
        ActionModel::Exit => "EXIT requested by model"@,
        ActionModel::Read(path) => match outcome {
            IoOutcome::Listing(entries) => tree_listing(
                entries@,
                listing_label(path),
                MAX_TREE_DEPTH as int,
                MAX_TREE_ENTRIES as int,
            ),
            IoOutcome::FileText(text) => text@,
            IoOutcome::ReadFailed(e) => "ERROR: Could not read file '"@ + path + "': "@ + e@,
            _ => Seq::empty(),
        },
        ActionModel::Write(text) => match outcome {
            IoOutcome::Written => "Successfully wrote "@ + decimal(byte_count(text)) + " bytes to '"@
                + output_file + "'"@,
            IoOutcome::DirCreateFailed(e) => "ERROR: Could not create parent directories for '"@
                + output_file + "': "@ + e@,
            IoOutcome::OpenFailed(e) => "ERROR: Could not open '"@ + output_file + "': "@ + e@,
            IoOutcome::WriteFailed(e) => "ERROR: Could not write to '"@ + output_file + "': "@ + e@,
            _ => Seq::empty(),
        },
    }
}

/// Whether `outcome` makes `action` succeed.
pub open spec fn result_success(action: ActionModel, outcome: IoOutcome) -> bool {
    match action {
        ActionModel::Think(_) => true,
        ActionModel::Exit => true,
        ActionModel::Read(_) => !(outcome is ReadFailed),
        ActionModel::Write(_) => outcome is Written,
    }
}

/// The result of `action` with `outcome`.
pub open spec fn result_of(action: ActionModel, outcome: IoOutcome, output_file: Seq<char>) -> ActionResultModel {
    ActionResultModel {
        action,
        success: result_success(action, outcome),
        content: result_text(action, outcome, output_file),
    }
}

/// The input or output `action` needs.
pub fn plan_action(action: &Action) -> (r: IoRequest)
    ensures
        request_for(action@, r),
{
    match action {
        Action::Think(_) => IoRequest::Nothing,
        Action::Exit => IoRequest::Nothing,
        Action::Read(path) => {
            let v = chars_of(path.as_str());
            let (lo, hi) = trim_bounds(&v, 0, v.len());
            assert(v@.subrange(0, v@.len() as int) =~= v@);
            let t = string_from_range(&v, lo, hi);
            if is_dot_or_slash(&t) {
                IoRequest::ListProject
            } else {
                IoRequest::ReadPath(t)
            }
        },
        Action::Write(text) => IoRequest::AppendOutput(text.clone()),
    }
}

/// `s` is `.` or `/`.
fn is_dot_or_slash(s: &String) -> (b: bool)
    ensures
        b == (s@ == "."@ || s@ == "/"@),
{
    let v = chars_of(s.as_str());
    proof {
        reveal_strlit(".");
        reveal_strlit("/");
    }
    if v.len() != 1 {
        return false;
    }
    if v[0] == '.' {
        assert(v@ =~= "."@);
        true
    } else if v[0] == '/' {
        assert(v@ =~= "/"@);
        true
    } else {
        assert(v@ != "."@ && v@ != "/"@) by {
            assert("."@[0] == '.' && "/"@[0] == '/');
        }
        false
    }
}

/// The result of `action` with `outcome`.
pub fn action_result(action: &Action, outcome: IoOutcome, output_file: &str) -> (r: ActionResult)
    requires
        answers(action@, outcome),
    ensures
        r@ == result_of(action@, outcome, output_file@),
{
    let ghost out = outcome;
    match action {
        Action::Think(thought) => {
            let r = ActionResult { action: copy_action(action), success: true, content: thought.clone() };
            assert(r@.content == result_text(action@, out, output_file@));
            assert(r@.success == result_success(action@, out));
            assert(r@.action == action@);
            assert(r@ == result_of(action@, out, output_file@));
            r
        },
        Action::Exit => ActionResult {
            action: Action::Exit,
            success: true,
            content: "EXIT requested by model".to_owned(),
        },
        Action::Read(path) => {
            match outcome {
                IoOutcome::Listing(entries) => {
                    let v = chars_of(path.as_str());
                    let (lo, hi) = trim_bounds(&v, 0, v.len());
                    assert(v@.subrange(0, v@.len() as int) =~= v@);
                    let t = string_from_range(&v, lo, hi);
                    let listing = if is_dot_or_slash(&t) {
                        render_directory_tree(&entries, ".", MAX_TREE_DEPTH, MAX_TREE_ENTRIES)
                    } else {
                        render_directory_tree(&entries, t.as_str(), MAX_TREE_DEPTH, MAX_TREE_ENTRIES)
                    };
                    let r = ActionResult { action: copy_action(action), success: true, content: listing };
                    assert(r@ == result_of(action@, out, output_file@));
                    r
                },
                IoOutcome::FileText(text) => ActionResult {
                    action: copy_action(action),
                    success: true,
                    content: text,
                },
                IoOutcome::ReadFailed(e) => {
                    let mut m = "ERROR: Could not read file '".to_owned();
                    m.append(path.as_str());
                    m.append("': ");
                    m.append(e.as_str());
                    let r = ActionResult { action: copy_action(action), success: false, content: m };
                    assert(r@ == result_of(action@, out, output_file@));
                    r
                },
                _ => {
                    assert(false);
                    ActionResult { action: copy_action(action), success: false, content: String::new() }
                },
            }
        },
        Action::Write(text) => {
            match outcome {
                IoOutcome::Written => {
                    let mut m = "Successfully wrote ".to_owned();
                    let n = decimal_string(text.as_str().len());
                    m.append(n.as_str());
                    m.append(" bytes to '");
                    m.append(output_file);
                    m.append("'");
                    let r = ActionResult { action: copy_action(action), success: true, content: m };
                    assert(r@ == result_of(action@, out, output_file@));
                    r
                },
                IoOutcome::DirCreateFailed(e) => {
                    let mut m = "ERROR: Could not create parent directories for '".to_owned();
                    m.append(output_file);
                    m.append("': ");
                    m.append(e.as_str());
                    let r = ActionResult { action: copy_action(action), success: false, content: m };
                    assert(r@ == result_of(action@, out, output_file@));
                    r
                },
                IoOutcome::OpenFailed(e) => {
                    let mut m = "ERROR: Could not open '".to_owned();
                    m.append(output_file);
                    m.append("': ");
                    m.append(e.as_str());
                    let r = ActionResult { action: copy_action(action), success: false, content: m };
                    assert(r@ == result_of(action@, out, output_file@));
                    r
                },
                IoOutcome::WriteFailed(e) => {
                    let mut m = "ERROR: Could not write to '".to_owned();
                    m.append(output_file);
                    m.append("': ");
                    m.append(e.as_str());
                    let r = ActionResult { action: copy_action(action), success: false, content: m };
                    assert(r@ == result_of(action@, out, output_file@));
                    r
                },
                _ => {
                    assert(false);
                    ActionResult { action: copy_action(action), success: false, content: String::new() }
                },
            }
        },
    }
}

/// The actions of one reply being carried out in order, with the results so far.
pub struct ActionRun {
    actions: Vec<Action>,
    results: Vec<ActionResult>,
    output_file: String,
}

impl ActionRun {
    /// The actions to carry out.
    pub closed spec fn actions(&self) -> Seq<ActionModel> {
        actions_model(self.actions@)
    }

    /// The results of the actions carried out so far, in order.
    pub closed spec fn results(&self) -> Seq<ActionResultModel> {
        results_model(self.results@)
    }

    /// The name of the file that WRITE actions write to.
    pub closed spec fn output_file(&self) -> Seq<char> {
        self.output_file@
    }

    /// A run of `actions` that has carried out none of them yet.
    pub fn new(actions: Vec<Action>, output_file: &str) -> (r: ActionRun)
        ensures
            r.actions() == actions_model(actions@),
            r.results() == Seq::<ActionResultModel>::empty(),
            r.output_file() == output_file@,
    {
        let r = ActionRun { actions, results: Vec::new(), output_file: output_file.to_owned() };
        assert(r.results() =~= Seq::<ActionResultModel>::empty());
        r
    }

    /// Every action has its result.
    pub fn is_done(&self) -> (b: bool)
        ensures
            b == (self.results().len() == self.actions().len()),
    {
        self.results.len() == self.actions.len()
    }

    /// The number of actions carried out so far.
    pub fn completed(&self) -> (n: usize)
        ensures
            n == self.results().len(),
    {
        self.results.len()
    }

    /// What the next action needs.
    pub fn next_request(&self) -> (r: IoRequest)
        requires
            self.results().len() < self.actions().len(),
        ensures
            request_for(self.actions()[self.results().len() as int], r),
    {
        let i = self.results.len();
        plan_action(&self.actions[i])
    }

    /// There is a next action and `outcome` answers its request.
    pub fn accepts(&self, outcome: &IoOutcome) -> (b: bool)
        ensures
            b == (self.results().len() < self.actions().len() && answers(
                self.actions()[self.results().len() as int],
                *outcome,
            )),
    {
        let i = self.results.len();
        if i >= self.actions.len() {
            return false;
        }
        let request = plan_action(&self.actions[i]);
        match request {
            IoRequest::Nothing => matches!(outcome, IoOutcome::Nothing),
            IoRequest::ListProject => matches!(outcome, IoOutcome::Listing(_)),
            IoRequest::ReadPath(_) => match outcome {
                IoOutcome::Listing(_) => true,
                IoOutcome::FileText(_) => true,
                IoOutcome::ReadFailed(_) => true,
                _ => false,
            },
            IoRequest::AppendOutput(_) => match outcome {
                IoOutcome::Written => true,
                IoOutcome::DirCreateFailed(_) => true,
                IoOutcome::OpenFailed(_) => true,
                IoOutcome::WriteFailed(_) => true,
                _ => false,
            },
        }
    }

    /// Records the result of the next action, given what came of its request.
    pub fn deliver(&mut self, outcome: IoOutcome)
        requires
            old(self).results().len() < old(self).actions().len(),
            answers(old(self).actions()[old(self).results().len() as int], outcome),
        ensures
            final(self).actions() == old(self).actions(),
            final(self).output_file() == old(self).output_file(),
            final(self).results() == old(self).results().push(
                result_of(
                    old(self).actions()[old(self).results().len() as int],
                    outcome,
                    old(self).output_file(),
                ),
            ),
    {
        let i = self.results.len();
        let r = action_result(&self.actions[i], outcome, self.output_file.as_str());
        let ghost before = self.results@;
        self.results.push(r);
        assert(results_model(self.results@) =~= results_model(before).push(r@));
    }

    /// The results, in action order.
    pub fn into_results(self) -> (r: Vec<ActionResult>)
        ensures
            results_model(r@) == self.results(),
    {
        self.results
    }
}

/// What the model is told about one action result.
pub open spec fn context_piece(r: ActionResultModel) -> Seq<char> {
    match r.action {
        ActionModel::Think(_) => Seq::empty(),
        ActionModel::Read(path) => "--- FILE: "@ + path + " ---\n"@ + r.content + "\n--- END FILE ---\n\n"@,
        ActionModel::Write(_) => if r.success {
            r.content + "\n\n"@
        } else {
            "WRITE ERROR: "@ + r.content + "\n\n"@
        },
        ActionModel::Exit => "EXIT requested by model\n\n"@,
    }
}

/// What the model is told about `results`, one piece per result, in order.
pub open spec fn context_of(results: Seq<ActionResultModel>) -> Seq<char>
    decreases results.len(),
{
    if results.len() == 0 {
        Seq::empty()
    } else {
        context_of(results.drop_last()) + context_piece(results.last())
    }
}

/// The text that tells the model what came of its actions; THINK actions add nothing.
pub fn build_context_from_results(results: &[ActionResult]) -> (r: String)
    ensures
        r@ == context_of(results_model(results@)),
{
    let mut context = String::new();
    let n = results.len();
    for i in 0..n
        invariant
            n == results@.len(),
            context@ == context_of(results_model(results@).take(i as int)),
    {
        let ghost upto = results_model(results@).take(i + 1);
        assert(upto.drop_last() =~= results_model(results@).take(i as int));
        assert(upto.last() == results@[i as int]@);
        let ghost before = context@;
        let result = &results[i];
        match &result.action {
            Action::Think(_) => {
                assert(context@ =~= before + Seq::<char>::empty());
            },
            Action::Read(path) => {
                context.append("--- FILE: ");
                context.append(path.as_str());
                context.append(" ---\n");
                context.append(result.content.as_str());
                context.append("\n--- END FILE ---\n\n");
            },
            Action::Write(_) => {
                if result.success {
                    context.append(result.content.as_str());
                    context.append("\n\n");
                } else {
                    context.append("WRITE ERROR: ");
                    context.append(result.content.as_str());
                    context.append("\n\n");
                }
            },
            Action::Exit => {
                context.append("EXIT requested by model\n\n");
            },
        }
        assert(context@ =~= before + context_piece(results@[i as int]@));
    }
    assert(results_model(results@).take(n as int) =~= results_model(results@));
    context
}

} // verus!
