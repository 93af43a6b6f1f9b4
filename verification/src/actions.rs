//! The actions a model asks for, and the parser that reads them out of a reply.
//!
//! A reply holds tagged actions: `<THINK>..</THINK>`, `<READ>..</READ>`,
//! `<WRITE>..</WRITE>` and `<EXIT>` (its closing tag is optional).  The parser
//! repeatedly takes the earliest opening tag of the rest of the reply; it stops
//! at the first opening tag whose closing tag is missing.  THINK actions are all
//! kept; of the other actions only the first three are.
use vstd::prelude::*;
use crate::text::{chars_of, find_from, find_in, lemma_find_from_is_first, matches_at, occurs_at, string_from_range, strip_newline_bounds, strip_newlines, trim, trim_bounds};

verus! {

/// How many non-THINK actions one reply may carry.
pub const MAX_ACTIONS_PER_RESPONSE: usize = 3;

/// One action requested by the model.
#[derive(Debug, Clone, PartialEq, Eq)]
pub enum Action {
    Think(String),
    Read(String),
    Write(String),
    Exit,
}

/// An action as a mathematical value.
pub enum ActionModel {
    Think(Seq<char>),
    Read(Seq<char>),
    Write(Seq<char>),
    Exit,
}

impl View for Action {
    type V = ActionModel;

    open spec fn view(&self) -> ActionModel {
        match self {
            Action::Think(s) => ActionModel::Think(s@),
            Action::Read(s) => ActionModel::Read(s@),
            Action::Write(s) => ActionModel::Write(s@),
            Action::Exit => ActionModel::Exit,
        }
    }
}

/// The outcome of carrying out one action.
#[derive(Debug, Clone, PartialEq, Eq)]
pub struct ActionResult {
    pub action: Action,
    pub success: bool,
    pub content: String,
}

/// An action result as a mathematical value.
pub struct ActionResultModel {
    pub action: ActionModel,
    pub success: bool,
    pub content: Seq<char>,
}

impl View for ActionResult {
    type V = ActionResultModel;

    open spec fn view(&self) -> ActionResultModel {
        ActionResultModel { action: self.action@, success: self.success, content: self.content@ }
    }
}

/// The models of a sequence of action results.
pub open spec fn results_model(v: Seq<ActionResult>) -> Seq<ActionResultModel> {
    v.map_values(|r: ActionResult| r@)
}

/// A copy of an action result with the same model.
pub fn copy_result(r: &ActionResult) -> (c: ActionResult)
    ensures
        c@ == r@,
{
    ActionResult { action: copy_action(&r.action), success: r.success, content: r.content.clone() }
}

/// The models of a sequence of actions.
pub open spec fn actions_model(v: Seq<Action>) -> Seq<ActionModel> {
    v.map_values(|a: Action| a@)
}

/// A copy of an action with the same model.
pub fn copy_action(a: &Action) -> (r: Action)
    ensures
        r@ == a@,
{
    match a {
        Action::Think(s) => Action::Think(s.clone()),
        Action::Read(s) => Action::Read(s.clone()),
        Action::Write(s) => Action::Write(s.clone()),
        Action::Exit => Action::Exit,
    }
}

pub open spec fn read_open() -> Seq<char> {
    seq!['<', 'R', 'E', 'A', 'D', '>']
}

pub open spec fn read_close() -> Seq<char> {
    seq!['<', '/', 'R', 'E', 'A', 'D', '>']
}

pub open spec fn write_open() -> Seq<char> {
    seq!['<', 'W', 'R', 'I', 'T', 'E', '>']
}

pub open spec fn write_close() -> Seq<char> {
    seq!['<', '/', 'W', 'R', 'I', 'T', 'E', '>']
}

pub open spec fn think_open() -> Seq<char> {
    seq!['<', 'T', 'H', 'I', 'N', 'K', '>']
}

pub open spec fn think_close() -> Seq<char> {
    seq!['<', '/', 'T', 'H', 'I', 'N', 'K', '>']
}

pub open spec fn exit_open() -> Seq<char> {
    seq!['<', 'E', 'X', 'I', 'T', '>']
}

pub open spec fn exit_close() -> Seq<char> {
    seq!['<', '/', 'E', 'X', 'I', 'T', '>']
}

/// The kinds of tag, in the order in which they are tried on a tie.
pub open spec fn open_tag(kind: int) -> Seq<char> {
    if kind == 0 {
        read_open()
    } else if kind == 1 {
        write_open()
    } else if kind == 2 {
        think_open()
    } else {
        exit_open()
    }
}

pub open spec fn close_tag(kind: int) -> Seq<char> {
    if kind == 0 {
        read_close()
    } else if kind == 1 {
        write_close()
    } else if kind == 2 {
        think_close()
    } else {
        exit_close()
    }
}

/// Keeps `best` unless `cand` is strictly earlier.
pub open spec fn earlier(best: Option<(int, int)>, cand: Option<int>, kind: int) -> Option<(int, int)> {
    match cand {
        None => best,
        Some(p) => match best {
            None => Some((p, kind)),
            Some(b) => if p < b.0 {
                Some((p, kind))
            } else {
                best
            },
        },
    }
}

/// The position and kind of the earliest opening tag at or after `pos`.
pub open spec fn earliest_tag(s: Seq<char>, pos: int) -> Option<(int, int)> {
    let r = earlier(None, find_from(s, read_open(), pos), 0);
    let w = earlier(r, find_from(s, write_open(), pos), 1);
    let t = earlier(w, find_from(s, think_open(), pos), 2);
    earlier(t, find_from(s, exit_open(), pos), 3)
}

/// The action whose opening tag of `kind` ends at `start` and whose body is `body`.
pub open spec fn action_of(kind: int, body: Seq<char>) -> ActionModel {
    if kind == 0 {
        ActionModel::Read(trim(body))
    } else if kind == 1 {
        ActionModel::Write(strip_newlines(body))
    } else {
        ActionModel::Think(strip_newlines(body))
    }
}

/// The next action at or after `pos`, and the index where the rest of the reply begins.
pub open spec fn extract_at(s: Seq<char>, pos: int) -> Option<(ActionModel, int)> {
    match earliest_tag(s, pos) {
        None => None,
        Some(found) => {
            let kind = found.1;
            let start = found.0 + open_tag(kind).len();
            if kind == 3 {
                if occurs_at(s, exit_close(), start) {
                    Some((ActionModel::Exit, start + exit_close().len()))
                } else {
                    Some((ActionModel::Exit, start))
                }
            } else {
                match find_from(s, close_tag(kind), start) {
                    None => None,
                    Some(close) => Some(
                        (action_of(kind, s.subrange(start, close)), close + close_tag(kind).len()),
                    ),
                }
            }
        },
    }
}

/// All actions of `s` from `pos` on, in order, before any limit.
pub open spec fn parse_from(s: Seq<char>, pos: int) -> Seq<ActionModel>
    decreases s.len() - pos,
{
    match extract_at(s, pos) {
        None => Seq::empty(),
        Some(next) => if pos < next.1 <= s.len() {
            seq![next.0].add(parse_from(s, next.1))
        } else {
            Seq::empty()
        },
    }
}

/// Keeps every THINK action and the first `budget` other actions.
pub open spec fn limit_actions(acts: Seq<ActionModel>, budget: nat) -> Seq<ActionModel>
    decreases acts.len(),
{
    if acts.len() == 0 {
        Seq::empty()
    } else if acts[0] is Think {
        seq![acts[0]].add(limit_actions(acts.drop_first(), budget))
    } else if budget > 0 {
        seq![acts[0]].add(limit_actions(acts.drop_first(), (budget - 1) as nat))
    } else {
        limit_actions(acts.drop_first(), budget)
    }
}

/// What `parse_actions` returns for a reply `s`.
pub open spec fn parsed_actions(s: Seq<char>) -> Seq<ActionModel> {
    limit_actions(parse_from(s, 0), MAX_ACTIONS_PER_RESPONSE as nat)
}


/// The opening (`closing == false`) or closing tag of `kind`.
fn tag_chars(kind: u8, closing: bool) -> (v: Vec<char>)
    requires
        kind < 4,
    ensures
        v@ == (if closing { close_tag(kind as int) } else { open_tag(kind as int) }),
{
    let v = if kind == 0 {
        if closing { vec!['<', '/', 'R', 'E', 'A', 'D', '>'] } else { vec!['<', 'R', 'E', 'A', 'D', '>'] }
    } else if kind == 1 {
        if closing {
            vec!['<', '/', 'W', 'R', 'I', 'T', 'E', '>']
        } else {
            vec!['<', 'W', 'R', 'I', 'T', 'E', '>']
        }
    } else if kind == 2 {
        if closing {
            vec!['<', '/', 'T', 'H', 'I', 'N', 'K', '>']
        } else {
            vec!['<', 'T', 'H', 'I', 'N', 'K', '>']
        }
    } else {
        if closing { vec!['<', '/', 'E', 'X', 'I', 'T', '>'] } else { vec!['<', 'E', 'X', 'I', 'T', '>'] }
    };
    assert(v@ =~= (if closing { close_tag(kind as int) } else { open_tag(kind as int) }));
    v
}

/// The eight tags, opening ones first, indexed by kind.
struct Tags {
    opens: Vec<Vec<char>>,
    closes: Vec<Vec<char>>,
}

impl Tags {
    spec fn wf(&self) -> bool {
        &&& self.opens@.len() == 4
        &&& self.closes@.len() == 4
        &&& forall|k: int| 0 <= k < 4 ==> #[trigger] self.opens@[k]@ == open_tag(k)
        &&& forall|k: int| 0 <= k < 4 ==> #[trigger] self.closes@[k]@ == close_tag(k)
    }

    fn new() -> (t: Tags)
        ensures
            t.wf(),
    {
        let mut opens: Vec<Vec<char>> = Vec::new();
        let mut closes: Vec<Vec<char>> = Vec::new();
        let mut k: u8 = 0;
        while k < 4
            invariant
                k <= 4,
                opens@.len() == k,
                closes@.len() == k,
                forall|j: int| 0 <= j < k ==> #[trigger] opens@[j]@ == open_tag(j),
                forall|j: int| 0 <= j < k ==> #[trigger] closes@[j]@ == close_tag(j),
            decreases 4 - k,
        {
            opens.push(tag_chars(k, false));
            closes.push(tag_chars(k, true));
            k = k + 1;
        }
        Tags { opens, closes }
    }
}

/// Exec form of `earlier`.
fn pick_earlier(best: Option<(usize, u8)>, cand: Option<usize>, kind: u8) -> (r: Option<(usize, u8)>)
    ensures
        match r {
            None => earlier(
                match best {
                    None => None,
                    Some(b) => Some((b.0 as int, b.1 as int)),
                },
                match cand {
                    None => None,
                    Some(c) => Some(c as int),
                },
                kind as int,
            ) is None,
            Some(x) => earlier(
                match best {
                    None => None,
                    Some(b) => Some((b.0 as int, b.1 as int)),
                },
                match cand {
                    None => None,
                    Some(c) => Some(c as int),
                },
                kind as int,
            ) == Some((x.0 as int, x.1 as int)),
        },
        r matches Some(x) ==> (x.1 == kind || (best matches Some(b) && x == b)),
        r matches Some(x) ==> (cand == Some(x.0) || (best matches Some(b) && x == b)),
{
    match cand {
        None => best,
        Some(p) => match best {
            None => Some((p, kind)),
            Some(b) => if p < b.0 {
                Some((p, kind))
            } else {
                best
            },
        },
    }
}

/// Exec form of `extract_at`.
#[verifier::spinoff_prover]
#[verifier::rlimit(40)]
fn extract_next(v: &Vec<char>, pos: usize, tags: &Tags) -> (r: Option<(Action, usize)>)
    requires
        pos <= v@.len(),
        tags.wf(),
    ensures
        r is None ==> extract_at(v@, pos as int) is None,
        r matches Some(x) ==> extract_at(v@, pos as int) == Some((x.0@, x.1 as int)) && pos < x.1
            <= v@.len(),
{
    let n = v.len();
    let mut best: Option<(usize, u8)> = None;
    let ghost s = v@;
    proof {
        assert(open_tag(0) == read_open());
        assert(open_tag(1) == write_open());
        assert(open_tag(2) == think_open());
        assert(open_tag(3) == exit_open());
    }
    let c0 = find_in(v, &tags.opens[0], pos);
    best = pick_earlier(best, c0, 0);
    let c1 = find_in(v, &tags.opens[1], pos);
    best = pick_earlier(best, c1, 1);
    let c2 = find_in(v, &tags.opens[2], pos);
    best = pick_earlier(best, c2, 2);
    let c3 = find_in(v, &tags.opens[3], pos);
    best = pick_earlier(best, c3, 3);
    proof {
        lemma_find_from_is_first(s, read_open(), pos as int);
        lemma_find_from_is_first(s, write_open(), pos as int);
        lemma_find_from_is_first(s, think_open(), pos as int);
        lemma_find_from_is_first(s, exit_open(), pos as int);
    }
    match best {
        None => None,
        Some(found) => {
            let kind = found.1;
            assert(kind < 4);
            let open_len = tags.opens[kind as usize].len();
            assert(tags.opens@[kind as int]@ == open_tag(kind as int));
            assert(occurs_at(s, open_tag(kind as int), found.0 as int));
            assert(found.0 + open_len <= n);
            let start = found.0 + open_len;
            if kind == 3 {
                let close = &tags.closes[3];
                if matches_at(v, close, start) {
                    Some((Action::Exit, start + close.len()))
                } else {
                    Some((Action::Exit, start))
                }
            } else {
                let close = &tags.closes[kind as usize];
                match find_in(v, close, start) {
                    None => None,
                    Some(cpos) => {
                        proof {
                            lemma_find_from_is_first(s, close_tag(kind as int), start as int);
                        }
                        assert(tags.closes@[kind as int]@ == close_tag(kind as int));
                        assert(cpos + close.len() <= n);
                        let next = cpos + close.len();
                        if kind == 0 {
                            let (lo, hi) = trim_bounds(v, start, cpos);
                            Some((Action::Read(string_from_range(v, lo, hi)), next))
                        } else {
                            let (lo, hi) = strip_newline_bounds(v, start, cpos);
                            let body = string_from_range(v, lo, hi);
                            if kind == 1 {
                                Some((Action::Write(body), next))
                            } else {
                                Some((Action::Think(body), next))
                            }
                        }
                    },
                }
            }
        },
    }
}


proof fn lemma_limit_step(acts: Seq<ActionModel>, i: int, budget: nat)
    requires
        0 <= i < acts.len(),
    ensures
        limit_actions(acts.skip(i), budget) == if acts[i] is Think {
            seq![acts[i]].add(limit_actions(acts.skip(i + 1), budget))
        } else if budget > 0 {
            seq![acts[i]].add(limit_actions(acts.skip(i + 1), (budget - 1) as nat))
        } else {
            limit_actions(acts.skip(i + 1), budget)
        },
{
    assert(acts.skip(i).drop_first() =~= acts.skip(i + 1));
    assert(acts.skip(i)[0] == acts[i]);
}

/// Reads the actions out of a model reply: every THINK action, and the first
/// `MAX_ACTIONS_PER_RESPONSE` READ, WRITE and EXIT actions, in reply order.
pub fn parse_actions(response: &str) -> (r: Vec<Action>)
    ensures
        actions_model(r@) == parsed_actions(response@),
{
    let v = chars_of(response);
    let tags = Tags::new();
    let mut all: Vec<Action> = Vec::new();
    let mut pos: usize = 0;
    loop
        invariant
            tags.wf(),
            v@ == response@,
            pos <= v@.len(),
            actions_model(all@) + parse_from(v@, pos as int) == parse_from(v@, 0),
        ensures
            actions_model(all@) == parse_from(response@, 0),
        decreases v@.len() - pos,
    {
        match extract_next(&v, pos, &tags) {
            None => {
                assert(parse_from(v@, pos as int) == Seq::<ActionModel>::empty());
                assert(actions_model(all@) =~= parse_from(v@, 0));
                break;
            },
            Some(next) => {
                let ghost before = all@;
                let (a, k) = next;
                proof {
                    assert(parse_from(v@, pos as int) == seq![a@].add(parse_from(v@, k as int)));
                }
                all.push(a);
                assert(actions_model(all@) =~= actions_model(before).push(a@));
                assert(actions_model(all@) + parse_from(v@, k as int) =~= actions_model(before)
                    + parse_from(v@, pos as int));
                pos = k;
            },
        }
    }
    let ghost every = actions_model(all@);
    let mut kept: Vec<Action> = Vec::new();
    let mut budget: usize = MAX_ACTIONS_PER_RESPONSE;
    let mut i: usize = 0;
    assert(every.skip(0) =~= every);
    while i < all.len()
        invariant
            every == actions_model(all@),
            i <= all@.len(),
            budget <= MAX_ACTIONS_PER_RESPONSE,
            actions_model(kept@) + limit_actions(every.skip(i as int), budget as nat) == limit_actions(
                every,
                MAX_ACTIONS_PER_RESPONSE as nat,
            ),
        decreases all@.len() - i,
    {
        proof {
            lemma_limit_step(every, i as int, budget as nat);
        }
        let ghost before = kept@;
        let ghost b0 = budget;
        let a = copy_action(&all[i]);
        assert(a@ == every[i as int]);
        match a {
            Action::Think(_) => {
                kept.push(a);
            },
            _ => {
                if budget > 0 {
                    kept.push(a);
                    budget = budget - 1;
                }
            },
        }
        assert(actions_model(kept@) + limit_actions(every.skip(i + 1), budget as nat)
            =~= actions_model(before) + limit_actions(every.skip(i as int), b0 as nat));
        i = i + 1;
    }
    assert(every.skip(i as int) =~= Seq::<ActionModel>::empty());
    assert(actions_model(kept@) =~= limit_actions(every, MAX_ACTIONS_PER_RESPONSE as nat));
    kept
}

} // verus!
