//! Properties of the library as a whole, proved over the specifications the
//! functions' contracts use.
use vstd::prelude::*;
use crate::actions::{action_of, close_tag, earliest_tag, exit_close, exit_open, extract_at, limit_actions, open_tag, parse_from, parsed_actions, read_open, think_open, write_open, ActionModel, MAX_ACTIONS_PER_RESPONSE};
use crate::text::{byte_count, find_from, lemma_find_from_is_first, is_unicode_whitespace, occurs_at, trim, trim_end, trim_start, utf8_len};
use crate::executor::{context_of, output_after_all, request_for, result_of, written_texts, IoOutcome, IoRequest};
use crate::actions::ActionResultModel;
use crate::memory::bounded_append;
use crate::optlib::{history_limit_for, OptimizationLevel};
use crate::tree::{code_point_less, insertion_point, listed_before, lowercase_of, render_items, render_level, sort_entries, tree_lines, DirNode};
use crate::local::{context_plan_of, model_alias, file_name_of, last_component, last_index_of};
use crate::debug::{tag_text, LogType, TAG_WIDTH};
use crate::settings::{masked, stars};
use crate::settings::{
    assignment, assigns, env_file_text, env_value_text, equals_index, escaped, first_assignment,
    lines_from, plain_env_char, set_env_key, strip_cr, with_llm_settings,
};
use crate::text::join_with;
use crate::tree::{child_prefix, entry_line};
use crate::executor::{answers, result_success};
use crate::session::{exit_in, opening_entries, opening_messages, tree_context, Style};
use crate::agent::{dialogue_line, dialogue_lines, iteration_preamble, iteration_prompt, results_report, system_parts};
use crate::memory::HistoryModel;

verus! {

/// The THINK actions of `acts`, in order.
pub open spec fn thinks(acts: Seq<ActionModel>) -> Seq<ActionModel>
    decreases acts.len(),
{
    if acts.len() == 0 {
        Seq::empty()
    } else if acts[0] is Think {
        seq![acts[0]] + thinks(acts.drop_first())
    } else {
        thinks(acts.drop_first())
    }
}

/// The actions of `acts` other than THINK, in order.
pub open spec fn non_thinks(acts: Seq<ActionModel>) -> Seq<ActionModel>
    decreases acts.len(),
{
    if acts.len() == 0 {
        Seq::empty()
    } else if acts[0] is Think {
        non_thinks(acts.drop_first())
    } else {
        seq![acts[0]] + non_thinks(acts.drop_first())
    }
}

proof fn lemma_cons<A>(x: A, s: Seq<A>)
    ensures
        (seq![x] + s).len() > 0,
        (seq![x] + s)[0] == x,
        (seq![x] + s).drop_first() == s,
{
    assert((seq![x] + s).drop_first() =~= s);
}

/// Limiting to a budget keeps every THINK action, in order, and of the other
/// actions exactly the first `budget`, in order.
pub proof fn lemma_limit_keeps_thinks_and_first_others(acts: Seq<ActionModel>, budget: nat)
    ensures
        thinks(limit_actions(acts, budget)) == thinks(acts),
        non_thinks(limit_actions(acts, budget)) == non_thinks(acts).take(
            if non_thinks(acts).len() < budget { non_thinks(acts).len() as int } else { budget as int },
        ),
    decreases acts.len(),
{
    if acts.len() == 0 {
        assert(non_thinks(acts).take(0) =~= Seq::<ActionModel>::empty());
    } else {
        let h = acts[0];
        let t = acts.drop_first();
        if h is Think {
            lemma_limit_keeps_thinks_and_first_others(t, budget);
            lemma_cons(h, limit_actions(t, budget));
        } else if budget > 0 {
            lemma_limit_keeps_thinks_and_first_others(t, (budget - 1) as nat);
            lemma_cons(h, limit_actions(t, (budget - 1) as nat));
            lemma_cons(h, non_thinks(t));
            let n = non_thinks(t);
            let k = if n.len() < (budget - 1) as nat { n.len() as int } else { (budget - 1) as int };
            assert((seq![h] + n).take(k + 1) =~= seq![h] + n.take(k));
        } else {
            lemma_limit_keeps_thinks_and_first_others(t, budget);
            assert(non_thinks(acts).take(0) =~= Seq::<ActionModel>::empty());
            assert(non_thinks(t).take(0) =~= Seq::<ActionModel>::empty());
        }
    }
}

/// A parsed reply keeps all its THINK actions and at most
/// `MAX_ACTIONS_PER_RESPONSE` other actions: the first ones of the reply.
pub proof fn lemma_parsed_reply_respects_action_limit(reply: Seq<char>)
    ensures
        thinks(parsed_actions(reply)) == thinks(parse_from(reply, 0)),
        non_thinks(parsed_actions(reply)).len() <= MAX_ACTIONS_PER_RESPONSE,
        non_thinks(parsed_actions(reply)) == non_thinks(parse_from(reply, 0)).take(
            non_thinks(parsed_actions(reply)).len() as int,
        ),
{
    lemma_limit_keeps_thinks_and_first_others(parse_from(reply, 0), MAX_ACTIONS_PER_RESPONSE as nat);
}

proof fn lemma_find_from_at(s: Seq<char>, pat: Seq<char>, from: int, j: int)
    requires
        0 <= from <= j,
        occurs_at(s, pat, j),
        forall|i: int| from <= i < j ==> !occurs_at(s, pat, i),
    ensures
        find_from(s, pat, from) == Some(j),
    decreases j - from,
{
    if from < j {
        lemma_find_from_at(s, pat, from + 1, j);
    }
}

proof fn lemma_trim_end_after(p: Seq<char>, q: Seq<char>)
    requires
        p.len() > 0,
        !is_unicode_whitespace(p.last()),
    ensures
        trim_end(p + q) == p + trim_end(q),
    decreases q.len(),
{
    if q.len() == 0 {
        assert(p + q =~= p);
        assert(p + trim_end(q) =~= p);
    } else if is_unicode_whitespace(q.last()) {
        assert((p + q).drop_last() =~= p + q.drop_last());
        lemma_trim_end_after(p, q.drop_last());
    } else {
        assert((p + q).last() == q.last());
    }
}

/// A key fit to be written in a `.env` file: non-empty, without `=`, not a
/// comment, and without whitespace at its ends.
pub open spec fn plain_key(k: Seq<char>) -> bool {
    &&& k.len() > 0
    &&& forall|i: int| 0 <= i < k.len() ==> #[trigger] k[i] != '='
    &&& k[0] != '#'
    &&& !is_unicode_whitespace(k[0])
    &&& !is_unicode_whitespace(k.last())
}

/// The line that assigns `key` assigns that key and no other.
pub proof fn lemma_assignment_assigns(key: Seq<char>, value: Seq<char>, other: Seq<char>)
    requires
        plain_key(key),
    ensures
        assigns(assignment(key, value), other) <==> other == key,
{
    let head = key + "="@;
    let line = assignment(key, value);
    reveal_strlit("=");
    assert(head.last() == '=');
    assert(line =~= head + env_value_text(value));
    assert(!is_unicode_whitespace('='));
    assert(trim_start(line) == line);
    lemma_trim_end_after(head, env_value_text(value));
    let t = trim(line);
    assert(t == head + trim_end(env_value_text(value)));
    assert(t[0] == key[0]);
    let eq = seq!['='];
    assert(occurs_at(t, eq, key.len() as int)) by {
        assert(t.subrange(key.len() as int, key.len() + 1int) =~= eq);
    }
    assert forall|i: int| 0 <= i < key.len() implies !occurs_at(t, eq, i) by {
        assert(t[i] == key[i]);
        if occurs_at(t, eq, i) {
            assert(t.subrange(i, i + 1)[0] == t[i]);
        }
    }
    lemma_find_from_at(t, eq, 0, key.len() as int);
    assert(equals_index(t) == Some(key.len() as int));
    assert(t.take(key.len() as int) =~= key);
    assert(trim_start(key) == key);
    assert(trim_end(key) == key);
}

/// A line assigns at most one key.
pub proof fn lemma_assigns_one_key(line: Seq<char>, k1: Seq<char>, k2: Seq<char>)
    requires
        assigns(line, k1),
        assigns(line, k2),
    ensures
        k1 == k2,
{
}

proof fn lemma_first_assignment_same(a: Seq<Seq<char>>, b: Seq<Seq<char>>, key: Seq<char>, from: int)
    requires
        0 <= from,
        a.len() <= b.len(),
        forall|j: int| from <= j < a.len() ==> assigns(#[trigger] b[j], key) == assigns(a[j], key),
        forall|j: int| a.len() <= j < b.len() ==> !assigns(#[trigger] b[j], key),
    ensures
        first_assignment(b, key, from) == first_assignment(a, key, from),
    decreases b.len() - from,
{
    if from < b.len() {
        lemma_first_assignment_same(a, b, key, from + 1);
    }
}

proof fn lemma_first_assignment_bounds(lines: Seq<Seq<char>>, key: Seq<char>, from: int)
    requires
        0 <= from,
    ensures
        first_assignment(lines, key, from) matches Some(i) ==> from <= i < lines.len() && assigns(lines[i], key)
            && forall|j: int| from <= j < i ==> !assigns(#[trigger] lines[j], key),
        first_assignment(lines, key, from) is None ==> forall|j: int| from <= j < lines.len() ==> !assigns(
            #[trigger] lines[j],
            key,
        ),
    decreases lines.len() - from,
{
    if from < lines.len() && !assigns(lines[from], key) {
        lemma_first_assignment_bounds(lines, key, from + 1);
    }
}

proof fn lemma_first_assignment_is(lines: Seq<Seq<char>>, key: Seq<char>, from: int, i: int)
    requires
        0 <= from <= i < lines.len(),
        assigns(lines[i], key),
        forall|j: int| from <= j < i ==> !assigns(#[trigger] lines[j], key),
    ensures
        first_assignment(lines, key, from) == Some(i),
    decreases i - from,
{
    if from < i {
        lemma_first_assignment_is(lines, key, from + 1, i);
    }
}

/// After setting `key`, its first assignment is the new one.
pub proof fn lemma_set_then_read(lines: Seq<Seq<char>>, key: Seq<char>, value: Seq<char>)
    requires
        plain_key(key),
    ensures
        first_assignment(set_env_key(lines, key, value), key, 0) matches Some(i)
            && set_env_key(lines, key, value)[i] == assignment(key, value),
{
    lemma_first_assignment_bounds(lines, key, 0);
    lemma_assignment_assigns(key, value, key);
    let r = set_env_key(lines, key, value);
    match first_assignment(lines, key, 0) {
        Some(i) => {
            assert forall|j: int| 0 <= j < i implies !assigns(#[trigger] r[j], key) by {
                assert(r[j] == lines[j]);
            }
            lemma_first_assignment_is(r, key, 0, i);
        },
        None => {
            assert forall|j: int| 0 <= j < lines.len() implies !assigns(#[trigger] r[j], key) by {
                assert(r[j] == lines[j]);
            }
            lemma_first_assignment_is(r, key, 0, lines.len() as int);
        },
    }
}

/// Setting `key` leaves the first assignment of every other key where it was.
pub proof fn lemma_set_keeps_other(lines: Seq<Seq<char>>, key: Seq<char>, value: Seq<char>, other: Seq<char>)
    requires
        plain_key(key),
        other != key,
    ensures
        first_assignment(set_env_key(lines, key, value), other, 0) == first_assignment(lines, other, 0),
        first_assignment(lines, other, 0) matches Some(i) ==> set_env_key(lines, key, value)[i] == lines[i],
{
    lemma_first_assignment_bounds(lines, key, 0);
    lemma_first_assignment_bounds(lines, other, 0);
    lemma_assignment_assigns(key, value, other);
    let r = set_env_key(lines, key, value);
    assert forall|j: int| 0 <= j < lines.len() implies assigns(#[trigger] r[j], other) == assigns(
        lines[j],
        other,
    ) by {
        if r[j] != lines[j] {
            assert(first_assignment(lines, key, 0) == Some(j));
            if assigns(lines[j], other) {
                lemma_assigns_one_key(lines[j], key, other);
            }
        }
    }
    lemma_first_assignment_same(lines, r, other, 0);
    match first_assignment(lines, other, 0) {
        Some(i) => {
            if r[i] != lines[i] {
                assert(first_assignment(lines, key, 0) == Some(i));
                lemma_assigns_one_key(lines[i], key, other);
            }
        },
        None => {},
    }
}

/// The settings keys are plain keys.
pub proof fn lemma_settings_keys_plain()
    ensures
        plain_key("LLM_TYPE"@),
        plain_key("API_KEY"@),
        plain_key("LLM_MODEL"@),
        "LLM_TYPE"@ != "API_KEY"@,
        "LLM_TYPE"@ != "LLM_MODEL"@,
        "API_KEY"@ != "LLM_MODEL"@,
{
    reveal_strlit("LLM_TYPE");
    reveal_strlit("API_KEY");
    reveal_strlit("LLM_MODEL");
    assert("LLM_TYPE"@[1] != "API_KEY"@[1]);
    assert("LLM_TYPE"@.len() != "LLM_MODEL"@.len());
    assert("API_KEY"@.len() != "LLM_MODEL"@.len());
}

/// After saving the settings, reading each key back gives the value saved.
pub proof fn lemma_saved_settings_read_back(
    lines: Seq<Seq<char>>,
    llm_type: Seq<char>,
    api_key: Seq<char>,
    llm_model: Seq<char>,
)
    ensures
        ({
            let r = with_llm_settings(lines, llm_type, api_key, llm_model);
            &&& first_assignment(r, "LLM_TYPE"@, 0) matches Some(i) && r[i] == assignment("LLM_TYPE"@, llm_type)
            &&& first_assignment(r, "API_KEY"@, 0) matches Some(i) && r[i] == assignment("API_KEY"@, api_key)
            &&& first_assignment(r, "LLM_MODEL"@, 0) matches Some(i) && r[i] == assignment("LLM_MODEL"@, llm_model)
        }),
{
    lemma_settings_keys_plain();
    let l1 = set_env_key(lines, "LLM_TYPE"@, llm_type);
    let l2 = set_env_key(l1, "API_KEY"@, api_key);
    let l3 = set_env_key(l2, "LLM_MODEL"@, llm_model);
    lemma_set_then_read(lines, "LLM_TYPE"@, llm_type);
    lemma_set_then_read(l1, "API_KEY"@, api_key);
    lemma_set_then_read(l2, "LLM_MODEL"@, llm_model);
    lemma_set_keeps_other(l1, "API_KEY"@, api_key, "LLM_TYPE"@);
    lemma_set_keeps_other(l2, "LLM_MODEL"@, llm_model, "LLM_TYPE"@);
    lemma_set_keeps_other(l2, "LLM_MODEL"@, llm_model, "API_KEY"@);
}

proof fn lemma_set_again(lines: Seq<Seq<char>>, key: Seq<char>, value: Seq<char>)
    requires
        first_assignment(lines, key, 0) matches Some(i) && lines[i] == assignment(key, value),
    ensures
        set_env_key(lines, key, value) == lines,
{
    lemma_first_assignment_bounds(lines, key, 0);
    let i = first_assignment(lines, key, 0)->0;
    assert(lines.update(i, assignment(key, value)) =~= lines);
}

/// Saving the same settings twice leaves the file as saving them once.
pub proof fn lemma_saving_settings_is_idempotent(
    lines: Seq<Seq<char>>,
    llm_type: Seq<char>,
    api_key: Seq<char>,
    llm_model: Seq<char>,
)
    ensures
        with_llm_settings(with_llm_settings(lines, llm_type, api_key, llm_model), llm_type, api_key, llm_model)
            == with_llm_settings(lines, llm_type, api_key, llm_model),
{
    let r = with_llm_settings(lines, llm_type, api_key, llm_model);
    lemma_saved_settings_read_back(lines, llm_type, api_key, llm_model);
    lemma_set_again(r, "LLM_TYPE"@, llm_type);
    lemma_set_again(r, "API_KEY"@, api_key);
    lemma_set_again(r, "LLM_MODEL"@, llm_model);
}

/// `line` can stand as one line of a text file and be read back as it is: it
/// holds no line feed and does not end in a carriage return.
pub open spec fn whole_line(line: Seq<char>) -> bool {
    &&& forall|i: int| 0 <= i < line.len() ==> line[i] != '\n'
    &&& !(line.len() > 0 && line.last() == '\r')
}

proof fn lemma_join_front(parts: Seq<Seq<char>>, sep: Seq<char>)
    requires
        parts.len() >= 2,
    ensures
        join_with(parts, sep) == parts[0] + sep + join_with(parts.drop_first(), sep),
    decreases parts.len(),
{
    if parts.len() == 2 {
        assert(parts.drop_last().len() == 1);
        assert(parts.drop_first().len() == 1);
        assert(join_with(parts.drop_last(), sep) == parts[0]);
        assert(join_with(parts.drop_first(), sep) == parts[1]);
    } else {
        lemma_join_front(parts.drop_last(), sep);
        assert(parts.drop_last().drop_first() =~= parts.drop_first().drop_last());
        assert(parts.drop_first().last() == parts.last());
        assert(join_with(parts, sep) =~= parts[0] + sep + join_with(parts.drop_first(), sep));
    }
}

proof fn lemma_lines_shift(a: Seq<char>, b: Seq<char>, pos: int)
    requires
        0 <= pos,
    ensures
        lines_from(a + b, pos + a.len()) == lines_from(b, pos),
    decreases b.len() - pos,
{
    if pos < b.len() {
        lemma_find_shift(a, b, seq!['\n'], pos);
        lemma_find_from_is_first(b, seq!['\n'], pos);
        match find_from(b, seq!['\n'], pos) {
            None => {
                assert((a + b).subrange(pos + a.len(), (a + b).len() as int) =~= b.subrange(pos, b.len() as int));
            },
            Some(k) => {
                assert((a + b).subrange(pos + a.len(), k + a.len()) =~= b.subrange(pos, k));
                lemma_lines_shift(a, b, k + 1);
                assert(k + 1 + a.len() == k + a.len() + 1);
            },
        }
    }
}

proof fn lemma_lines_first(l0: Seq<char>, rest: Seq<char>)
    requires
        whole_line(l0),
    ensures
        lines_from(l0 + seq!['\n'] + rest, 0) == seq![l0] + lines_from(rest, 0),
{
    let t = l0 + seq!['\n'] + rest;
    let k = l0.len() as int;
    assert(t.subrange(k, k + 1) =~= seq!['\n']);
    assert forall|i: int| 0 <= i < k implies !occurs_at(t, seq!['\n'], i) by {
        if occurs_at(t, seq!['\n'], i) {
            assert(t.subrange(i, i + 1)[0] == t[i]);
        }
    }
    lemma_find_from_at(t, seq!['\n'], 0, k);
    assert(t.subrange(0, k) =~= l0);
    assert(t == (l0 + seq!['\n']) + rest);
    lemma_lines_shift(l0 + seq!['\n'], rest, 0);
}

/// Splitting the text of a `.env` file into lines gives back the lines it was
/// written from, when each is a whole line.
pub proof fn lemma_env_text_read_back(lines: Seq<Seq<char>>)
    requires
        lines.len() > 0,
        forall|i: int| 0 <= i < lines.len() ==> whole_line(#[trigger] lines[i]),
    ensures
        lines_from(env_file_text(lines), 0) == lines,
    decreases lines.len(),
{
    reveal_strlit("\n");
    assert("\n"@ =~= seq!['\n']);
    assert(whole_line(lines[0]));
    if lines.len() == 1 {
        assert(join_with(lines, "\n"@) == lines[0]);
        assert(env_file_text(lines) =~= lines[0] + seq!['\n'] + Seq::<char>::empty());
        lemma_lines_first(lines[0], Seq::<char>::empty());
        assert(lines_from(Seq::<char>::empty(), 0) =~= Seq::<Seq<char>>::empty());
        assert(seq![lines[0]] =~= lines);
    } else {
        let rest = lines.drop_first();
        assert forall|i: int| 0 <= i < rest.len() implies whole_line(#[trigger] rest[i]) by {
            assert(rest[i] == lines[i + 1]);
        }
        lemma_env_text_read_back(rest);
        lemma_join_front(lines, "\n"@);
        assert(env_file_text(lines) =~= lines[0] + seq!['\n'] + env_file_text(rest));
        lemma_lines_first(lines[0], env_file_text(rest));
        assert(seq![lines[0]] + rest =~= lines);
    }
}

/// Every line `lines_from` gives holds no line feed.
proof fn lemma_lines_have_no_feed(s: Seq<char>, pos: int)
    ensures
        forall|i: int, j: int| 0 <= i < lines_from(s, pos).len() && 0 <= j < lines_from(s, pos)[i].len()
            ==> #[trigger] lines_from(s, pos)[i][j] != '\n',
    decreases s.len() - pos,
{
    if 0 <= pos < s.len() {
        lemma_find_from_is_first(s, seq!['\n'], pos);
        match find_from(s, seq!['\n'], pos) {
            None => {
                let seg = s.subrange(pos, s.len() as int);
                assert forall|j: int| 0 <= j < seg.len() implies seg[j] != '\n' by {
                    if seg[j] == '\n' {
                        assert(s.subrange(pos + j, pos + j + 1) =~= seq!['\n']);
                        assert(occurs_at(s, seq!['\n'], pos + j));
                    }
                }
            },
            Some(k) => {
                if pos <= k < s.len() {
                    let seg = s.subrange(pos, k);
                    assert forall|j: int| 0 <= j < seg.len() implies seg[j] != '\n' by {
                        if seg[j] == '\n' {
                            assert(s.subrange(pos + j, pos + j + 1) =~= seq!['\n']);
                            assert(occurs_at(s, seq!['\n'], pos + j));
                        }
                    }
                    let first = strip_cr(seg);
                    assert forall|j: int| 0 <= j < first.len() implies first[j] != '\n' by {
                        assert(first[j] == seg[j]);
                    }
                    lemma_lines_have_no_feed(s, k + 1);
                    let rest = lines_from(s, k + 1);
                    assert forall|i: int, j: int| 0 <= i < lines_from(s, pos).len() && 0 <= j < lines_from(s, pos)[i].len()
                        implies #[trigger] lines_from(s, pos)[i][j] != '\n' by {
                        if i > 0 {
                            assert(lines_from(s, pos)[i] == rest[i - 1]);
                        }
                    }
                }
            },
        }
    }
}

proof fn lemma_escaped_keeps_feeds_out(v: Seq<char>)
    requires
        forall|i: int| 0 <= i < v.len() ==> v[i] != '\n',
    ensures
        forall|i: int| 0 <= i < escaped(v).len() ==> escaped(v)[i] != '\n',
    decreases v.len(),
{
    if v.len() > 0 {
        let init = v.drop_last();
        assert forall|i: int| 0 <= i < init.len() implies init[i] != '\n' by {
            assert(init[i] == v[i]);
        }
        lemma_escaped_keeps_feeds_out(init);
        let c = v[v.len() - 1];
        assert(v.last() == c);
        let e = escaped(v);
        assert(e == escaped(init) + crate::settings::escape_char(c));
        assert forall|i: int| 0 <= i < e.len() implies e[i] != '\n' by {
            if i < escaped(init).len() {
                assert(e[i] == escaped(init)[i]);
            } else {
                assert(e[i] == crate::settings::escape_char(c)[i - escaped(init).len()]);
            }
        }
    }
}

/// The line that saves a value without line feeds is a whole line.
proof fn lemma_assignment_whole(key: Seq<char>, value: Seq<char>)
    requires
        whole_line(key),
        !value.contains('\n'),
    ensures
        whole_line(assignment(key, value)),
{
    reveal_strlit("=");
    assert forall|i: int| 0 <= i < value.len() implies value[i] != '\n' by {
        if value[i] == '\n' {
            assert(value.contains('\n'));
        }
    }
    let text = env_value_text(value);
    let line = assignment(key, value);
    if forall|i: int| 0 <= i < value.len() ==> plain_env_char(#[trigger] value[i]) {
        assert(text == value);
        if value.len() > 0 {
            assert(plain_env_char(value[value.len() - 1]));
            assert(line.last() == value[value.len() - 1]);
        } else {
            assert(line.last() == '=');
        }
    } else {
        lemma_escaped_keeps_feeds_out(value);
        assert(text == seq!['"'] + escaped(value) + seq!['"']);
        assert(line.last() == '"');
    }
    assert forall|i: int| 0 <= i < line.len() implies line[i] != '\n' by {
        if i < key.len() {
            assert(line[i] == key[i]);
        } else if i == key.len() {
            assert(line[i] == '=');
        } else {
            assert(line[i] == text[i - key.len() - 1]);
            if !(forall|j: int| 0 <= j < value.len() ==> plain_env_char(#[trigger] value[j])) {
                let m = i - key.len() - 1;
                if 0 < m < text.len() - 1 {
                    assert(text[m] == escaped(value)[m - 1]);
                }
            }
        }
    }
}

/// Where each line of `set_env_key(lines, key, value)` comes from: the line
/// at the same index, unless it is the first assignment of `key` or a new
/// line at the end; those are the new assignment.
proof fn lemma_set_at(lines: Seq<Seq<char>>, key: Seq<char>, value: Seq<char>)
    ensures
        ({
            let r = set_env_key(lines, key, value);
            &&& r.len() == lines.len() || r.len() == lines.len() + 1
            &&& r.len() > 0
            &&& forall|i: int| 0 <= i < r.len() ==> #[trigger] r[i] == if i < lines.len()
                && first_assignment(lines, key, 0) != Some(i) {
                lines[i]
            } else {
                assignment(key, value)
            }
        }),
{
    lemma_first_assignment_bounds(lines, key, 0);
}

/// The line at `i` of `lines` is the first assignment of one of the saved
/// settings, and is replaced when they are saved.
pub open spec fn saved_setting_line(lines: Seq<Seq<char>>, i: int) -> bool {
    ||| first_assignment(lines, "LLM_TYPE"@, 0) == Some(i)
    ||| first_assignment(lines, "API_KEY"@, 0) == Some(i)
    ||| first_assignment(lines, "LLM_MODEL"@, 0) == Some(i)
}

/// Saving the same settings twice leaves the `.env` file as saving them
/// once, when no value holds a line feed and every line of the file that
/// ends in a carriage return, as read, is one that saving replaces.
pub proof fn lemma_saving_settings_file_idempotent(
    before: Seq<char>,
    llm_type: Seq<char>,
    api_key: Seq<char>,
    llm_model: Seq<char>,
)
    requires
        forall|i: int| 0 <= i < lines_from(before, 0).len() && #[trigger] lines_from(before, 0)[i].len() > 0
            && lines_from(before, 0)[i].last() == '\r' ==> saved_setting_line(lines_from(before, 0), i),
        !llm_type.contains('\n'),
        !api_key.contains('\n'),
        !llm_model.contains('\n'),
    ensures
        ({
            let once = env_file_text(with_llm_settings(lines_from(before, 0), llm_type, api_key, llm_model));
            env_file_text(with_llm_settings(lines_from(once, 0), llm_type, api_key, llm_model)) == once
        }),
{
    let l0 = lines_from(before, 0);
    lemma_lines_have_no_feed(before, 0);
    lemma_settings_keys_plain();
    reveal_strlit("LLM_TYPE");
    reveal_strlit("API_KEY");
    reveal_strlit("LLM_MODEL");
    let k1 = "LLM_TYPE"@;
    let k2 = "API_KEY"@;
    let k3 = "LLM_MODEL"@;
    assert(whole_line(k1));
    assert(whole_line(k2));
    assert(whole_line(k3));
    lemma_assignment_whole(k1, llm_type);
    lemma_assignment_whole(k2, api_key);
    lemma_assignment_whole(k3, llm_model);
    let a = set_env_key(l0, k1, llm_type);
    let b = set_env_key(a, k2, api_key);
    let c = set_env_key(b, k3, llm_model);
    lemma_set_at(l0, k1, llm_type);
    lemma_set_at(a, k2, api_key);
    lemma_set_at(b, k3, llm_model);
    lemma_set_keeps_other(l0, k1, llm_type, k2);
    lemma_set_keeps_other(l0, k1, llm_type, k3);
    lemma_set_keeps_other(a, k2, api_key, k3);
    assert forall|i: int| 0 <= i < c.len() implies whole_line(#[trigger] c[i]) by {
        if i < l0.len() && first_assignment(l0, k1, 0) != Some(i) && first_assignment(a, k2, 0) != Some(i)
            && first_assignment(b, k3, 0) != Some(i) {
            assert(c[i] == b[i]);
            assert(b[i] == a[i]);
            assert(a[i] == l0[i]);
            assert(!saved_setting_line(l0, i));
            assert forall|j: int| 0 <= j < l0[i].len() implies l0[i][j] != '\n' by {
                assert(lines_from(before, 0)[i][j] != '\n');
            }
        } else if i < b.len() && first_assignment(b, k3, 0) != Some(i) {
            assert(c[i] == b[i]);
            if i < a.len() && first_assignment(a, k2, 0) != Some(i) {
                assert(b[i] == a[i]);
            }
        }
    }
    assert(c == with_llm_settings(l0, llm_type, api_key, llm_model));
    lemma_env_text_read_back(c);
    lemma_saving_settings_is_idempotent(l0, llm_type, api_key, llm_model);
}

/// Every action's result records that action; THINK and EXIT always succeed.
pub proof fn lemma_result_is_for_its_action(action: ActionModel, outcome: IoOutcome, output_file: Seq<char>)
    ensures
        result_of(action, outcome, output_file).action == action,
        (action is Think || action is Exit) ==> result_of(action, outcome, output_file).success,
{
}

/// When every WRITE succeeds, the output file ends up holding its old text
/// followed by the texts of the WRITE actions, in order: each WRITE appends
/// and none overwrites.
pub proof fn lemma_writes_append(actions: Seq<ActionModel>, requests: Seq<IoRequest>, before: Seq<char>)
    requires
        requests.len() == actions.len(),
        forall|i: int| 0 <= i < actions.len() ==> request_for(actions[i], #[trigger] requests[i]),
    ensures
        output_after_all(requests, before) == before + written_texts(actions),
    decreases actions.len(),
{
    if actions.len() > 0 {
        let n = actions.len() - 1;
        assert forall|i: int| 0 <= i < actions.drop_last().len() implies request_for(
            actions.drop_last()[i],
            #[trigger] requests.drop_last()[i],
        ) by {
            assert(request_for(actions[i], requests[i]));
        }
        lemma_writes_append(actions.drop_last(), requests.drop_last(), before);
        assert(request_for(actions[n], requests[n]));
        assert(actions.last() == actions[n]);
        assert(requests.last() == requests[n]);
        match actions[n] {
            ActionModel::Write(t) => {
                assert(output_after_all(requests, before) =~= before + written_texts(actions));
            },
            _ => {
                assert(output_after_all(requests, before) =~= before + written_texts(actions));
            },
        }
    }
}

/// THINK results add nothing to what the model is told.
pub proof fn lemma_thinking_adds_no_context(results: Seq<ActionResultModel>, thought: ActionResultModel)
    requires
        thought.action is Think,
    ensures
        context_of(results.push(thought)) == context_of(results),
{
    assert(results.push(thought).drop_last() =~= results);
    assert(context_of(results) + Seq::<char>::empty() =~= context_of(results));
}

/// A bounded history never grows past its limit, always ends with the newest
/// entry, and never changes its first `limit - 3` entries.
pub proof fn lemma_bounded_history<T>(h: Seq<T>, limit: nat, x: T)
    requires
        limit >= 3,
    ensures
        h.len() <= limit ==> bounded_append(h, limit, x).len() <= limit,
        bounded_append(h, limit, x).last() == x,
        forall|i: int| 0 <= i < limit - 3 && i < h.len() ==> #[trigger] bounded_append(h, limit, x)[i] == h[i],
{
}

/// Every profile's limits allow the memory's bounded appends.
pub proof fn lemma_profile_limits_usable(level: OptimizationLevel)
    ensures
        history_limit_for(level) >= 4,
{
}

/// The listing shows one line per entry counted, and never counts past its limit.
pub proof fn lemma_render_level_counts(
    entries: Seq<DirNode>,
    prefix: Seq<char>,
    depth: int,
    max_depth: int,
    max_entries: int,
    emitted: int,
)
    ensures
        ({
            let r = render_level(entries, prefix, depth, max_depth, max_entries, emitted);
            &&& emitted <= r.1
            &&& r.0.len() == r.1 - emitted
            &&& emitted <= max_entries ==> r.1 <= max_entries
        }),
    decreases max_depth - depth, 1int, 0int,
{
    if depth >= max_depth || emitted >= max_entries {
    } else {
        lemma_render_items_counts(sort_entries(entries), 0, prefix, depth, max_depth, max_entries, emitted);
    }
}

/// The item form of `lemma_render_level_counts`.
pub proof fn lemma_render_items_counts(
    sorted: Seq<DirNode>,
    idx: int,
    prefix: Seq<char>,
    depth: int,
    max_depth: int,
    max_entries: int,
    emitted: int,
)
    ensures
        ({
            let r = render_items(sorted, idx, prefix, depth, max_depth, max_entries, emitted);
            &&& emitted <= r.1
            &&& r.0.len() == r.1 - emitted
            &&& emitted <= max_entries ==> r.1 <= max_entries
        }),
    decreases max_depth - depth, 0int, sorted.len() - idx,
{
    if depth >= max_depth || idx < 0 || idx >= sorted.len() || emitted >= max_entries {
    } else {
        let e = sorted[idx];
        let is_last = idx + 1 == sorted.len();
        let below = if e.is_dir {
            render_level(
                e.children@,
                crate::tree::child_prefix(prefix, is_last),
                depth + 1,
                max_depth,
                max_entries,
                emitted + 1,
            )
        } else {
            (Seq::<Seq<char>>::empty(), emitted + 1)
        };
        if e.is_dir {
            lemma_render_level_counts(
                e.children@,
                crate::tree::child_prefix(prefix, is_last),
                depth + 1,
                max_depth,
                max_entries,
                emitted + 1,
            );
        }
        lemma_render_items_counts(sorted, idx + 1, prefix, depth, max_depth, max_entries, below.1);
    }
}

/// A listing has its heading, at most `max_entries` entry lines, and at most
/// one line saying it was cut off.
pub proof fn lemma_listing_is_bounded(entries: Seq<DirNode>, label: Seq<char>, max_depth: int, max_entries: int)
    requires
        0 <= max_entries,
    ensures
        tree_lines(entries, label, max_depth, max_entries).len() <= max_entries + 2,
        tree_lines(entries, label, max_depth, max_entries)[0] == label,
{
    lemma_render_level_counts(entries, Seq::empty(), 0, max_depth, max_entries, 0);
}

proof fn lemma_last_component_nonempty(p: Seq<char>)
    ensures
        last_component(p) matches Some(c) ==> c.len() > 0,
    decreases p.len(),
{
    match last_index_of(p, '/') {
        None => {},
        Some(k) => {
            let seg = p.skip(k + 1);
            if seg.len() > 0 && seg != "."@ {
            } else if 0 <= k < p.len() {
                lemma_last_component_nonempty(p.take(k));
            }
        },
    }
}

proof fn lemma_last_index_bounds(s: Seq<char>, c: char)
    ensures
        last_index_of(s, c) matches Some(i) ==> 0 <= i < s.len(),
    decreases s.len(),
{
    if s.len() > 0 && s.last() != c {
        lemma_last_index_bounds(s.drop_last(), c);
    }
}

/// A local model always gets a non-empty display name.
pub proof fn lemma_model_alias_nonempty(model_path: Seq<char>)
    ensures
        model_alias(model_path).len() > 0,
{
    lemma_last_component_nonempty(model_path);
    reveal_strlit("local-model");
    match file_name_of(model_path) {
        Some(name) => {
            lemma_last_index_bounds(name, '.');
        },
        None => {},
    }
}

proof fn lemma_last_index_suffix(a: Seq<char>, b: Seq<char>, c: char)
    requires
        forall|i: int| 0 <= i < b.len() ==> b[i] != c,
    ensures
        last_index_of(a + b, c) == last_index_of(a, c),
    decreases b.len(),
{
    if b.len() == 0 {
        assert(a + b =~= a);
    } else {
        assert((a + b).drop_last() =~= a + b.drop_last());
        assert((a + b).last() == b[b.len() - 1]);
        lemma_last_index_suffix(a, b.drop_last(), c);
    }
}

/// The directories before a model file's name do not change its display
/// name, which is never empty and holds no `/`.
pub proof fn lemma_model_alias_ignores_directories(dir: Seq<char>, name: Seq<char>)
    requires
        name.len() > 0,
        !name.contains('/'),
        name != "."@,
        name != ".."@,
    ensures
        model_alias(dir + seq!['/'] + name) == model_alias(name),
        model_alias(name).len() > 0,
        !model_alias(name).contains('/'),
{
    let a = dir + seq!['/'];
    let p = a + name;
    assert(forall|i: int| 0 <= i < name.len() ==> name[i] != '/') by {
        assert forall|i: int| 0 <= i < name.len() implies name[i] != '/' by {
            if name[i] == '/' {
                assert(name.contains('/'));
            }
        }
    }
    lemma_last_index_suffix(a, name, '/');
    assert(a.drop_last() =~= dir);
    assert(last_index_of(a, '/') == Some(dir.len() as int));
    assert(p.skip(dir.len() + 1 as int) =~= name);
    lemma_last_index_suffix(Seq::<char>::empty(), name, '/');
    assert(Seq::<char>::empty() + name =~= name);
    assert(dir + seq!['/'] + name == p);
    lemma_model_alias_nonempty(name);
    lemma_last_index_bounds(name, '.');
    if model_alias(name).contains('/') {
        let j = choose|j: int| 0 <= j < model_alias(name).len() && model_alias(name)[j] == '/';
        assert(model_alias(name)[j] == name[j]);
    }
}

/// The context sizes are usable: a context of at least 512 tokens, and a
/// micro-batch of at most the batch, which holds at least 32 tokens.
pub proof fn lemma_context_plan_sane(context_size: u32, batch_size: u32)
    ensures
        context_plan_of(context_size, batch_size).n_ctx >= 512,
        32 <= context_plan_of(context_size, batch_size).n_batch,
        context_plan_of(context_size, batch_size).n_ubatch <= context_plan_of(context_size, batch_size).n_batch,
        context_size >= 32 ==> context_plan_of(context_size, batch_size).n_batch <= context_size,
{
}

/// A text of ASCII characters takes one byte per character.
proof fn lemma_ascii_utf8_len(s: Seq<char>)
    requires
        forall|i: int| 0 <= i < s.len() ==> (#[trigger] s[i] as u32) < 0x80,
    ensures
        utf8_len(s) == s.len(),
    decreases s.len(),
{
    if s.len() > 0 {
        assert(forall|i: int| 0 <= i < s.drop_first().len() ==> s.drop_first()[i] == s[i + 1]);
        lemma_ascii_utf8_len(s.drop_first());
    }
}

/// `TAG_WIDTH` is the length in bytes of the longest log tag.
pub proof fn lemma_tag_width_is_widest()
    ensures
        forall|t: LogType| #[trigger] byte_count(tag_text(t)) <= TAG_WIDTH,
        byte_count(tag_text(LogType::Success)) == TAG_WIDTH,
{
    reveal_strlit("SUCCESS");
    reveal_strlit("FAILED!");
    reveal_strlit("DEBUG");
    reveal_strlit("LLM");
    reveal_strlit("ACTION");
    lemma_ascii_utf8_len("SUCCESS"@);
    lemma_ascii_utf8_len("FAILED!"@);
    lemma_ascii_utf8_len("DEBUG"@);
    lemma_ascii_utf8_len("LLM"@);
    lemma_ascii_utf8_len("ACTION"@);
    assert forall|t: LogType| #[trigger] byte_count(tag_text(t)) <= TAG_WIDTH by {
        match t {
            LogType::Success => {},
            LogType::Failed => {},
            LogType::Debug => {},
            LogType::LLM => {},
            LogType::Action => {},
        }
    }
}

proof fn lemma_code_point_less_asym(a: Seq<char>, b: Seq<char>)
    ensures
        code_point_less(a, b) ==> !code_point_less(b, a),
    decreases a.len(),
{
    if a.len() > 0 && b.len() > 0 && (a[0] as u32) == (b[0] as u32) {
        lemma_code_point_less_asym(a.drop_first(), b.drop_first());
    }
}

proof fn lemma_code_point_less_trans(a: Seq<char>, b: Seq<char>, c: Seq<char>)
    requires
        code_point_less(a, b),
        code_point_less(b, c),
    ensures
        code_point_less(a, c),
    decreases a.len(),
{
    if a.len() > 0 && b.len() > 0 && c.len() > 0 && (a[0] as u32) == (b[0] as u32) && (b[0] as u32)
        == (c[0] as u32) {
        lemma_code_point_less_trans(a.drop_first(), b.drop_first(), c.drop_first());
    }
}

proof fn lemma_listed_before_order(a: DirNode, b: DirNode, c: DirNode)
    ensures
        listed_before(a, b) ==> !listed_before(b, a),
        listed_before(a, b) && listed_before(b, c) ==> listed_before(a, c),
{
    lemma_code_point_less_asym(lowercase_of(a.name@), lowercase_of(b.name@));
    if listed_before(a, b) && listed_before(b, c) && a.is_dir == b.is_dir && b.is_dir == c.is_dir {
        lemma_code_point_less_trans(lowercase_of(a.name@), lowercase_of(b.name@), lowercase_of(c.name@));
    }
}

/// No entry of `s` is listed before an entry that precedes it.
pub open spec fn in_listing_order(s: Seq<DirNode>) -> bool {
    forall|i: int, j: int| 0 <= i < j < s.len() ==> !listed_before(#[trigger] s[j], #[trigger] s[i])
}

proof fn lemma_insertion_point(x: DirNode, t: Seq<DirNode>, from: int)
    requires
        0 <= from <= t.len(),
    ensures
        from <= insertion_point(x, t, from) <= t.len(),
        forall|i: int| from <= i < insertion_point(x, t, from) ==> !listed_before(x, #[trigger] t[i]),
        insertion_point(x, t, from) < t.len() ==> listed_before(x, t[insertion_point(x, t, from)]),
    decreases t.len() - from,
{
    if from < t.len() && !listed_before(x, t[from]) {
        lemma_insertion_point(x, t, from + 1);
    }
}

/// Directory entries are listed in order: directories before files, each
/// group by lower-cased name; and the listing holds exactly the entries given.
pub proof fn lemma_sort_entries_ordered(s: Seq<DirNode>)
    ensures
        in_listing_order(sort_entries(s)),
        sort_entries(s).len() == s.len(),
        forall|i: int, j: int| 0 <= i < j < s.len() && (#[trigger] sort_entries(s)[i]).is_dir == false
            ==> !(#[trigger] sort_entries(s)[j]).is_dir,
    decreases s.len(),
{
    if s.len() > 0 {
        let t = sort_entries(s.drop_last());
        lemma_sort_entries_ordered(s.drop_last());
        let x = s.last();
        lemma_insertion_point(x, t, 0);
        let p = insertion_point(x, t, 0);
        let r = t.insert(p, x);
        assert(r == sort_entries(s));
        assert forall|i: int, j: int| 0 <= i < j < r.len() implies !listed_before(#[trigger] r[j], #[trigger] r[i]) by {
            if j < p {
                assert(r[i] == t[i] && r[j] == t[j]);
            } else if j == p {
                assert(r[j] == x);
                assert(r[i] == t[i]);
            } else if i == p {
                assert(r[i] == x);
                assert(r[j] == t[j - 1]);
                lemma_listed_before_order(t[j - 1], x, t[p]);
                if j - 1 > p {
                    assert(!listed_before(t[j - 1], t[p]));
                } else {
                    lemma_listed_before_order(x, t[p], x);
                }
            } else if i < p {
                assert(r[i] == t[i] && r[j] == t[j - 1]);
            } else {
                assert(r[i] == t[i - 1] && r[j] == t[j - 1]);
            }
        }
        assert forall|i: int, j: int| 0 <= i < j < s.len() && (#[trigger] r[i]).is_dir == false implies !(
        #[trigger] r[j]).is_dir by {
            if r[j].is_dir {
                assert(listed_before(r[j], r[i]));
            }
        }
    }
}

proof fn lemma_trim_start_shape(s: Seq<char>)
    ensures
        exists|j: int| 0 <= j <= s.len() && trim_start(s) == s.skip(j),
        trim_start(s).len() > 0 ==> !is_unicode_whitespace(trim_start(s)[0]),
    decreases s.len(),
{
    if s.len() > 0 && is_unicode_whitespace(s[0]) {
        lemma_trim_start_shape(s.drop_first());
        let j = choose|j: int| 0 <= j <= s.drop_first().len() && trim_start(s.drop_first()) == s.drop_first().skip(j);
        assert(s.drop_first().skip(j) =~= s.skip(j + 1));
    } else {
        assert(s.skip(0) =~= s);
    }
}

proof fn lemma_trim_end_shape(s: Seq<char>)
    ensures
        exists|k: int| 0 <= k <= s.len() && trim_end(s) == s.take(k),
        trim_end(s).len() > 0 ==> !is_unicode_whitespace(trim_end(s).last()),
    decreases s.len(),
{
    if s.len() > 0 && is_unicode_whitespace(s.last()) {
        lemma_trim_end_shape(s.drop_last());
        let k = choose|k: int| 0 <= k <= s.drop_last().len() && trim_end(s.drop_last()) == s.drop_last().take(k);
        assert(s.drop_last().take(k) =~= s.take(k));
    } else {
        assert(s.take(s.len() as int) =~= s);
    }
}

/// Trimming twice is trimming once.
pub proof fn lemma_trim_idempotent(s: Seq<char>)
    ensures
        trim(trim(s)) == trim(s),
{
    lemma_trim_start_shape(s);
    let u = trim_start(s);
    lemma_trim_end_shape(u);
    let t = trim_end(u);
    let k = choose|k: int| 0 <= k <= u.len() && trim_end(u) == u.take(k);
    if t.len() > 0 {
        assert(t[0] == u[0]);
        assert(trim_start(t) == t);
    } else {
        assert(trim_start(t) == t);
    }
}

/// Every action of a parsed reply is an action of the reply before the limit.
proof fn lemma_limit_subset(acts: Seq<ActionModel>, budget: nat)
    ensures
        forall|i: int| 0 <= i < limit_actions(acts, budget).len() ==> acts.contains(
            #[trigger] limit_actions(acts, budget)[i],
        ),
    decreases acts.len(),
{
    if acts.len() > 0 {
        let t = acts.drop_first();
        let b2: nat = if acts[0] is Think || budget == 0 { budget } else { (budget - 1) as nat };
        lemma_limit_subset(t, b2);
        let r = limit_actions(acts, budget);
        assert forall|i: int| 0 <= i < r.len() implies acts.contains(#[trigger] r[i]) by {
            if acts[0] is Think || budget > 0 {
                if i == 0 {
                    assert(acts[0] == r[i]);
                } else {
                    assert(r[i] == limit_actions(t, b2)[i - 1]);
                    let j = choose|j: int| 0 <= j < t.len() && t[j] == r[i];
                    assert(acts[j + 1] == r[i]);
                }
            } else {
                let j = choose|j: int| 0 <= j < t.len() && t[j] == r[i];
                assert(acts[j + 1] == r[i]);
            }
        }
    }
}

/// Every READ path the parser finds has no whitespace at its ends.
proof fn lemma_parse_from_reads_trimmed(s: Seq<char>, pos: int)
    ensures
        forall|i: int| 0 <= i < parse_from(s, pos).len() ==> (#[trigger] parse_from(s, pos)[i] matches ActionModel::Read(p) ==> trim(p) == p),
    decreases s.len() - pos,
{
    match extract_at(s, pos) {
        None => {},
        Some(next) => {
            if pos < next.1 <= s.len() {
                lemma_parse_from_reads_trimmed(s, next.1);
                let rest = parse_from(s, next.1);
                assert forall|i: int| 0 <= i < parse_from(s, pos).len() implies (#[trigger] parse_from(s, pos)[i] matches ActionModel::Read(p) ==> trim(p) == p) by {
                    if i == 0 {
                        if let ActionModel::Read(p) = next.0 {
                            let found = crate::actions::earliest_tag(s, pos)->0;
                            let start = found.0 + crate::actions::open_tag(found.1).len();
                            let close = find_from(s, crate::actions::close_tag(found.1), start)->0;
                            lemma_trim_idempotent(s.subrange(start, close));
                        }
                    } else {
                        assert(parse_from(s, pos)[i] == rest[i - 1]);
                    }
                }
            }
        },
    }
}

/// Every READ path in a parsed reply has no whitespace at its ends.
pub proof fn lemma_parsed_read_paths_trimmed(reply: Seq<char>)
    ensures
        forall|i: int| 0 <= i < parsed_actions(reply).len() ==> (#[trigger] parsed_actions(reply)[i] matches ActionModel::Read(p) ==> trim(p) == p),
{
    lemma_parse_from_reads_trimmed(reply, 0);
    lemma_limit_subset(parse_from(reply, 0), MAX_ACTIONS_PER_RESPONSE as nat);
}

/// A masked secret keeps its length and shows at most its first and last three characters.
pub proof fn lemma_mask_hides_middle(secret: Seq<char>)
    requires
        secret.len() > 0,
    ensures
        masked(secret).len() == secret.len(),
        forall|i: int| 3 <= i < secret.len() - 3 ==> #[trigger] masked(secret)[i] == '*',
        secret.len() <= 6 ==> masked(secret) == stars(secret.len()),
{
}


/// `o` moved `k` places on.
pub open spec fn shifted(o: Option<int>, k: int) -> Option<int> {
    match o {
        Some(i) => Some(i + k),
        None => None,
    }
}

/// The tag found `f`, moved `k` places on.
pub open spec fn shifted_tag(f: Option<(int, int)>, k: int) -> Option<(int, int)> {
    match f {
        Some(x) => Some((x.0 + k, x.1)),
        None => None,
    }
}

proof fn lemma_occurs_shift(t: Seq<char>, s: Seq<char>, pat: Seq<char>, i: int)
    requires
        0 <= i,
    ensures
        occurs_at(t + s, pat, i + t.len()) == occurs_at(s, pat, i),
{
    if i + pat.len() <= s.len() {
        assert((t + s).subrange(i + t.len(), i + t.len() + pat.len()) =~= s.subrange(i, i + pat.len()));
    }
}

proof fn lemma_find_shift(t: Seq<char>, s: Seq<char>, pat: Seq<char>, p: int)
    requires
        0 <= p,
    ensures
        find_from(t + s, pat, p + t.len()) == shifted(find_from(s, pat, p), t.len() as int),
    decreases s.len() + 1 - p,
{
    if p + pat.len() <= s.len() {
        lemma_occurs_shift(t, s, pat, p);
        if !occurs_at(s, pat, p) {
            lemma_find_shift(t, s, pat, p + 1);
            assert(p + 1 + t.len() == p + t.len() + 1);
        }
    }
}

proof fn lemma_find_skips_prefix(t: Seq<char>, s: Seq<char>, pat: Seq<char>, p: int)
    requires
        0 <= p <= t.len(),
        pat.len() > 0,
        pat[0] == '<',
        !t.contains('<'),
    ensures
        find_from(t + s, pat, p) == find_from(t + s, pat, t.len() as int),
    decreases t.len() - p,
{
    if p < t.len() {
        let u = t + s;
        if p + pat.len() <= u.len() {
            assert(u.subrange(p, p + pat.len())[0] == t[p]);
            assert(t[p] != '<');
        }
        lemma_find_skips_prefix(t, s, pat, p + 1);
    }
}

proof fn lemma_earliest_shift(t: Seq<char>, s: Seq<char>, p: int)
    requires
        0 <= p,
    ensures
        earliest_tag(t + s, p + t.len()) == shifted_tag(earliest_tag(s, p), t.len() as int),
{
    lemma_find_shift(t, s, read_open(), p);
    lemma_find_shift(t, s, write_open(), p);
    lemma_find_shift(t, s, think_open(), p);
    lemma_find_shift(t, s, exit_open(), p);
}

proof fn lemma_earliest_skips_prefix(t: Seq<char>, s: Seq<char>)
    requires
        !t.contains('<'),
    ensures
        earliest_tag(t + s, 0) == earliest_tag(t + s, t.len() as int),
{
    lemma_find_skips_prefix(t, s, read_open(), 0);
    lemma_find_skips_prefix(t, s, write_open(), 0);
    lemma_find_skips_prefix(t, s, think_open(), 0);
    lemma_find_skips_prefix(t, s, exit_open(), 0);
}

/// The earliest tag at or after `pos` is at or after `pos`.
proof fn lemma_earliest_after(s: Seq<char>, pos: int)
    requires
        0 <= pos,
    ensures
        earliest_tag(s, pos) matches Some(f) ==> pos <= f.0 && 0 <= f.1 <= 3,
{
    lemma_find_from_is_first(s, read_open(), pos);
    lemma_find_from_is_first(s, write_open(), pos);
    lemma_find_from_is_first(s, think_open(), pos);
    lemma_find_from_is_first(s, exit_open(), pos);
}

proof fn lemma_extract_shift(t: Seq<char>, s: Seq<char>, p: int)
    requires
        0 <= p,
    ensures
        extract_at(t + s, p + t.len()) == match extract_at(s, p) {
            Some(next) => Some((next.0, next.1 + t.len())),
            None => None,
        },
        extract_at(s, p) matches Some(next) ==> p < next.1,
{
    let u = t + s;
    let k = t.len() as int;
    lemma_earliest_shift(t, s, p);
    lemma_earliest_after(s, p);
    match earliest_tag(s, p) {
        None => {},
        Some(found) => {
            let kind = found.1;
            let start = found.0 + open_tag(kind).len();
            if kind == 3 {
                lemma_occurs_shift(t, s, exit_close(), start);
                assert(start + k == found.0 + k + open_tag(kind).len());
            } else {
                lemma_find_shift(t, s, close_tag(kind), start);
                lemma_find_from_is_first(s, close_tag(kind), start);
                assert(start + k == found.0 + k + open_tag(kind).len());
                match find_from(s, close_tag(kind), start) {
                    None => {},
                    Some(close) => {
                        assert(u.subrange(start + k, close + k) =~= s.subrange(start, close));
                    },
                }
            }
        },
    }
}

proof fn lemma_parse_shift(t: Seq<char>, s: Seq<char>, p: int)
    requires
        0 <= p,
    ensures
        parse_from(t + s, p + t.len()) == parse_from(s, p),
    decreases s.len() - p,
{
    lemma_extract_shift(t, s, p);
    match extract_at(s, p) {
        None => {},
        Some(next) => {
            if p < next.1 <= s.len() {
                lemma_parse_shift(t, s, next.1);
            }
        },
    }
}

/// Text before the first `<` of a reply does not change what is parsed: a
/// prefix without `<` leaves the actions of a reply as they are.
pub proof fn lemma_prefix_without_tags_ignored(t: Seq<char>, s: Seq<char>)
    requires
        !t.contains('<'),
    ensures
        parsed_actions(t + s) == parsed_actions(s),
{
    let u = t + s;
    let k = t.len() as int;
    lemma_earliest_skips_prefix(t, s);
    lemma_extract_shift(t, s, 0);
    assert(extract_at(u, 0) == extract_at(u, k));
    lemma_parse_shift(t, s, 0);
    match extract_at(s, 0) {
        None => {},
        Some(next) => {
            if 0 < next.1 <= s.len() {
                lemma_parse_shift(t, s, next.1);
            }
        },
    }
    assert(parse_from(u, 0) == parse_from(u, k));
}


/// `line` begins with `p`.
pub open spec fn begins_with(line: Seq<char>, p: Seq<char>) -> bool {
    p.len() <= line.len() && line.take(p.len() as int) == p
}

proof fn lemma_begins_with_trans(line: Seq<char>, q: Seq<char>, p: Seq<char>)
    requires
        begins_with(line, q),
        begins_with(q, p),
    ensures
        begins_with(line, p),
{
    assert(line.take(p.len() as int) =~= line.take(q.len() as int).take(p.len() as int));
}

/// The indentation under an entry extends the entry's own indentation at its
/// end, by four characters: a vertical bar while more entries follow at the
/// entry's level, blanks after the last one.
pub proof fn lemma_child_prefix_extends(prefix: Seq<char>, is_last: bool)
    ensures
        begins_with(child_prefix(prefix, is_last), prefix),
        child_prefix(prefix, is_last).skip(prefix.len() as int) == if is_last {
            "    "@
        } else {
            "│   "@
        },
{
    let c = child_prefix(prefix, is_last);
    assert(c.take(prefix.len() as int) =~= prefix);
    if is_last {
        assert(c.skip(prefix.len() as int) =~= "    "@);
    } else {
        assert(c.skip(prefix.len() as int) =~= "│   "@);
    }
}

/// Every line drawn for the entries of a directory, its own entries' lines
/// included at any depth, begins with the indentation the directory's entries
/// are drawn at.
pub proof fn lemma_render_level_lines_begin_with_prefix(
    entries: Seq<DirNode>,
    prefix: Seq<char>,
    depth: int,
    max_depth: int,
    max_entries: int,
    emitted: int,
)
    ensures
        forall|i: int| 0 <= i < render_level(entries, prefix, depth, max_depth, max_entries, emitted).0.len()
            ==> begins_with(#[trigger] render_level(entries, prefix, depth, max_depth, max_entries, emitted).0[i], prefix),
    decreases max_depth - depth, 1int, 0int,
{
    if depth >= max_depth || emitted >= max_entries {
    } else {
        lemma_render_items_lines_begin_with_prefix(sort_entries(entries), 0, prefix, depth, max_depth, max_entries, emitted);
        assert(render_level(entries, prefix, depth, max_depth, max_entries, emitted) == render_items(
            sort_entries(entries),
            0,
            prefix,
            depth,
            max_depth,
            max_entries,
            emitted,
        ));
    }
}

/// The item form of `lemma_render_level_lines_begin_with_prefix`: the lines of
/// `sorted[idx..]` and of everything below them begin with `prefix`.
pub proof fn lemma_render_items_lines_begin_with_prefix(
    sorted: Seq<DirNode>,
    idx: int,
    prefix: Seq<char>,
    depth: int,
    max_depth: int,
    max_entries: int,
    emitted: int,
)
    ensures
        forall|i: int| 0 <= i < render_items(sorted, idx, prefix, depth, max_depth, max_entries, emitted).0.len()
            ==> begins_with(#[trigger] render_items(sorted, idx, prefix, depth, max_depth, max_entries, emitted).0[i], prefix),
    decreases max_depth - depth, 0int, sorted.len() - idx,
{
    if depth >= max_depth || idx < 0 || idx >= sorted.len() || emitted >= max_entries {
    } else {
        let e = sorted[idx];
        let is_last = idx + 1 == sorted.len();
        let cp = child_prefix(prefix, is_last);
        let below = if e.is_dir {
            render_level(e.children@, cp, depth + 1, max_depth, max_entries, emitted + 1)
        } else {
            (Seq::<Seq<char>>::empty(), emitted + 1)
        };
        if e.is_dir {
            lemma_render_level_lines_begin_with_prefix(e.children@, cp, depth + 1, max_depth, max_entries, emitted + 1);
        }
        lemma_child_prefix_extends(prefix, is_last);
        lemma_render_items_lines_begin_with_prefix(sorted, idx + 1, prefix, depth, max_depth, max_entries, below.1);
        let after = render_items(sorted, idx + 1, prefix, depth, max_depth, max_entries, below.1);
        let first = entry_line(prefix, e, is_last);
        let lines = seq![first] + below.0 + after.0;
        assert(lines == render_items(sorted, idx, prefix, depth, max_depth, max_entries, emitted).0);
        assert(first.take(prefix.len() as int) =~= prefix);
        assert forall|i: int| 0 <= i < lines.len() implies begins_with(#[trigger] lines[i], prefix) by {
            if i == 0 {
                assert(lines[i] == first);
            } else if i < 1 + below.0.len() {
                assert(lines[i] == below.0[i - 1]);
                assert(begins_with(below.0[i - 1], cp));
                lemma_begins_with_trans(lines[i], cp, prefix);
            } else {
                assert(lines[i] == after.0[i - 1 - below.0.len()]);
            }
        }
    }
}

/// A READ of any path may be answered with the listing of a directory, and
/// such a READ succeeds: reading a directory gives its tree.
pub proof fn lemma_directory_read_answered(path: Seq<char>, entries: Vec<DirNode>)
    ensures
        answers(ActionModel::Read(path), IoOutcome::Listing(entries)),
        result_success(ActionModel::Read(path), IoOutcome::Listing(entries)),
{
}

/// An EXIT anywhere among a reply's results ends the loop, whatever else the
/// reply did; and the loop ends only for an EXIT.
pub proof fn lemma_exit_anywhere_ends(results: Seq<ActionResultModel>, i: int)
    ensures
        0 <= i < results.len() && results[i].action is Exit ==> exit_in(results),
        exit_in(results) ==> exists|j: int| 0 <= j < results.len() && (#[trigger] results[j]).action is Exit,
{
}

/// Whether a batch of results asks to exit does not depend on how it is split:
/// the whole asks to exit exactly when one of its parts does.
pub proof fn lemma_exit_of_joined_results(a: Seq<ActionResultModel>, b: Seq<ActionResultModel>)
    ensures
        exit_in(a + b) == (exit_in(a) || exit_in(b)),
{
    if exit_in(a) {
        let j = choose|j: int| 0 <= j < a.len() && a[j].action is Exit;
        assert((a + b)[j] == a[j]);
    }
    if exit_in(b) {
        let j = choose|j: int| 0 <= j < b.len() && b[j].action is Exit;
        assert((a + b)[a.len() + j] == b[j]);
    }
    if exit_in(a + b) {
        let j = choose|j: int| 0 <= j < (a + b).len() && (a + b)[j].action is Exit;
        if j < a.len() {
            assert((a + b)[j] == a[j]);
        } else {
            assert((a + b)[j] == b[j - a.len()]);
        }
    }
}

/// The entry is a `System` entry.
pub open spec fn is_system_entry(h: HistoryModel) -> bool {
    h.role == "System"@
}

/// The dialogue shown to a local model is every history entry whose role is
/// not `System`, in order, one line each.
pub proof fn lemma_dialogue_lines_are_non_system_entries(history: Seq<HistoryModel>)
    ensures
        dialogue_lines(history) == history.filter(|h: HistoryModel| !is_system_entry(h)).map_values(
            |h: HistoryModel| dialogue_line(h),
        ),
    decreases history.len(),
{
    reveal(Seq::filter);
    if history.len() > 0 {
        lemma_dialogue_lines_are_non_system_entries(history.drop_last());
        let pred = |h: HistoryModel| !is_system_entry(h);
        let f = history.drop_last().filter(pred);
        if pred(history.last()) {
            assert(f.push(history.last()).map_values(|h: HistoryModel| dialogue_line(h)) =~= f.map_values(
                |h: HistoryModel| dialogue_line(h),
            ).push(dialogue_line(history.last())));
        }
    }
}

/// The system context shown to a local model is the contents of every
/// `System` history entry, in order.
pub proof fn lemma_system_parts_are_system_entries(history: Seq<HistoryModel>)
    ensures
        system_parts(history) == history.filter(|h: HistoryModel| is_system_entry(h)).map_values(
            |h: HistoryModel| h.content,
        ),
    decreases history.len(),
{
    reveal(Seq::filter);
    if history.len() > 0 {
        lemma_system_parts_are_system_entries(history.drop_last());
        let pred = |h: HistoryModel| is_system_entry(h);
        let f = history.drop_last().filter(pred);
        if pred(history.last()) {
            assert(f.push(history.last()).map_values(|h: HistoryModel| h.content) =~= f.map_values(
                |h: HistoryModel| h.content,
            ).push(history.last().content));
        }
    }
}

/// A local model's prompt shows the `System` entries as its context and every
/// other history entry, in order, as its history.
pub proof fn lemma_turn_prompt_shows_whole_history(
    history: Seq<HistoryModel>,
    results: Seq<ActionResultModel>,
    extra: Option<Seq<char>>,
)
    ensures
        ({
            let base = iteration_preamble() + join_with(
                history.filter(|h: HistoryModel| is_system_entry(h)).map_values(|h: HistoryModel| h.content),
                "\n\n"@,
            ) + "\n\nEXECUTION RESULTS:\n"@ + results_report(results) + "\n\nHISTORY:\n"@ + join_with(
                history.filter(|h: HistoryModel| !is_system_entry(h)).map_values(
                    |h: HistoryModel| dialogue_line(h),
                ),
                "\n"@,
            ) + "\n\nNow produce the next actions."@;
            iteration_prompt(history, results, extra) == match extra {
                None => base,
                Some(x) => base + "\n\n"@ + x,
            }
        }),
{
    lemma_dialogue_lines_are_non_system_entries(history);
    lemma_system_parts_are_system_entries(history);
}

/// A chat opens with the system prompt first and the project's directory tree
/// among its messages, and its messages say what its opening history entries
/// say, in order; a local model's history opens with both as well.
pub proof fn lemma_opening_shows_prompt_and_tree(style: Style, prompt: Seq<char>, tree: Seq<char>)
    ensures
        opening_entries(style, prompt, tree).len() > 0,
        opening_entries(style, prompt, tree)[0].content == prompt,
        exists|i: int| 0 <= i < opening_entries(style, prompt, tree).len() && (#[trigger] opening_entries(style, prompt, tree)[i]).content == tree_context(tree),
        !(style is Local) ==> {
            let ms = opening_messages(style, prompt, tree);
            let es = opening_entries(style, prompt, tree);
            &&& ms.len() == es.len()
            &&& forall|i: int| 0 <= i < ms.len() ==> #[trigger] ms[i].content == es[i].content
            &&& exists|i: int| 0 <= i < ms.len() && (#[trigger] ms[i]).content == tree_context(tree)
        },
{
    let es = opening_entries(style, prompt, tree);
    let ms = opening_messages(style, prompt, tree);
    match style {
        Style::Llmapi => {
            assert(es[3].content == tree_context(tree));
            assert(ms[3].content == tree_context(tree));
        },
        Style::Gemini => {
            assert(es[3].content == tree_context(tree));
            assert(ms[3].content == tree_context(tree));
        },
        Style::Ollama => {
            assert(es[1].content == tree_context(tree));
            assert(ms[1].content == tree_context(tree));
        },
        Style::Local => {
            assert(es[1].content == tree_context(tree));
        },
    }
}

} // verus!
