//! The user-facing settings: answers to yes/no questions, defaults, the API
//! type, masking of secrets, and the `.env` file in which settings are saved.
use vstd::prelude::*;
use vstd::string::StringExecFns;
use crate::errors::Error;
use crate::text::{
    chars_of, find_from, find_in, first_visible, join_strings, join_with, push_char, same_text,
    string_from_range, strings_model, trim, trim_bounds, trimmed,
};

verus! {

/// An answer to a yes/no question.
#[derive(Debug, Clone, Copy, PartialEq, Eq, Structural)]
pub enum Answer {
    Yes,
    No,
    Unclear,
}

/// The answer `input` gives: its first visible character decides.
pub open spec fn answer_of(input: Seq<char>) -> Answer {
    match first_visible(input) {
        Some(c) => if c == 'Y' || c == 'y' {
            Answer::Yes
        } else if c == 'N' || c == 'n' {
            Answer::No
        } else {
            Answer::Unclear
        },
        None => Answer::Unclear,
    }
}

/// Reads a yes/no answer.
pub fn read_answer(input: &str) -> (a: Answer)
    ensures
        a == answer_of(input@),
{
    let t = chars_of(trimmed(input).as_str());
    if t.len() == 0 {
        return Answer::Unclear;
    }
    let c = t[0];
    if c == 'Y' || c == 'y' {
        Answer::Yes
    } else if c == 'N' || c == 'n' {
        Answer::No
    } else {
        Answer::Unclear
    }
}

/// The trimmed `input`, or `default` when nothing was typed.
pub open spec fn value_or_default_of(input: Seq<char>, default: Seq<char>) -> Seq<char> {
    if trim(input).len() == 0 {
        default
    } else {
        trim(input)
    }
}

/// The trimmed `input`, or `default` when nothing was typed.
pub fn value_or_default(input: &str, default: &str) -> (r: String)
    ensures
        r@ == value_or_default_of(input@, default@),
{
    let t = trimmed(input);
    if t.as_str().is_empty() {
        default.to_owned()
    } else {
        t
    }
}

/// The value of a setting read from the environment: trimmed, and absent when empty.
pub fn normalize_env_value(value: Option<String>) -> (r: Option<String>)
    ensures
        match value {
            None => r is None,
            Some(v) => if trim(v@).len() == 0 {
                r is None
            } else {
                r matches Some(t) && t@ == trim(v@)
            },
        },
{
    match value {
        None => None,
        Some(v) => {
            let t = trimmed(v.as_str());
            if t.as_str().is_empty() {
                None
            } else {
                Some(t)
            }
        },
    }
}

/// The services a README can be written with.
#[allow(non_camel_case_types)]
#[derive(Debug, Clone, Copy, PartialEq, Eq, Structural)]
pub enum ApiType {
    GEMINI,
    GROQ,
    LLMAPI,
    LOCAL,
    NVIDIA,
}

/// The service named `name`, if `name` names one.
pub open spec fn api_type_named(name: Seq<char>) -> Option<ApiType> {
    if name == "GEMINI"@ {
        Some(ApiType::GEMINI)
    } else if name == "GROQ"@ {
        Some(ApiType::GROQ)
    } else if name == "LLMAPI"@ {
        Some(ApiType::LLMAPI)
    } else if name == "LOCAL"@ {
        Some(ApiType::LOCAL)
    } else if name == "NVIDIA"@ {
        Some(ApiType::NVIDIA)
    } else {
        None
    }
}

/// The service named `name`; an unknown name is an `UnknownApiTypeError`.
pub fn parse_api_type(name: &str) -> (r: Result<ApiType, Error>)
    ensures
        match api_type_named(name@) {
            Some(t) => r == Ok::<ApiType, Error>(t),
            None => r matches Err(Error::UnknownApiTypeError(s)) && s@ == name@,
        },
{
    if same_text(name, "GEMINI") {
        Ok(ApiType::GEMINI)
    } else if same_text(name, "GROQ") {
        Ok(ApiType::GROQ)
    } else if same_text(name, "LLMAPI") {
        Ok(ApiType::LLMAPI)
    } else if same_text(name, "LOCAL") {
        Ok(ApiType::LOCAL)
    } else if same_text(name, "NVIDIA") {
        Ok(ApiType::NVIDIA)
    } else {
        Err(Error::UnknownApiTypeError(name.to_owned()))
    }
}

/// `n` asterisks.
pub open spec fn stars(n: nat) -> Seq<char> {
    Seq::new(n, |i: int| '*')
}

/// `secret` with all but its first and last three characters hidden; short
/// secrets are hidden whole, and an empty one reads `<empty>`.
pub open spec fn masked(secret: Seq<char>) -> Seq<char> {
    if secret.len() == 0 {
        "<empty>"@
    } else if secret.len() <= 6 {
        stars(secret.len())
    } else {
        secret.take(3) + stars((secret.len() - 6) as nat) + secret.skip(secret.len() - 3)
    }
}

/// Hides a secret for display.
pub fn mask_secret(value: &str) -> (r: String)
    ensures
        r@ == masked(value@),
{
    let v = chars_of(value);
    let n = v.len();
    if n == 0 {
        return "<empty>".to_owned();
    }
    let mut r = String::new();
    if n <= 6 {
        for i in 0..n
            invariant
                r@ == stars(i as nat),
        {
            push_char(&mut r, '*');
            assert(r@ =~= stars((i + 1) as nat));
        }
        return r;
    }
    r = string_from_range(&v, 0, 3);
    let ghost head = r@;
    for i in 0..n - 6
        invariant
            n == v@.len(),
            n > 6,
            r@ == head + stars(i as nat),
    {
        push_char(&mut r, '*');
        assert(r@ =~= head + stars((i + 1) as nat));
    }
    let tail = string_from_range(&v, n - 3, n);
    r.append(tail.as_str());
    assert(v@.subrange(0, 3) =~= v@.take(3));
    assert(v@.subrange(n - 3, n as int) =~= v@.skip(n - 3));
    r
}

/// `c` may stand unquoted in a `.env` value.
pub open spec fn plain_env_char(c: char) -> bool {
    let u = c as u32;
    ||| 0x61 <= u <= 0x7A
    ||| 0x41 <= u <= 0x5A
    ||| 0x30 <= u <= 0x39
    ||| c == '_' || c == '-' || c == '.' || c == '/' || c == ':'
}

/// `c` as it stands inside a quoted `.env` value.
pub open spec fn escape_char(c: char) -> Seq<char> {
    if c == '\\' {
        seq!['\\', '\\']
    } else if c == '"' {
        seq!['\\', '"']
    } else {
        seq![c]
    }
}

/// `s` with backslashes and double quotes escaped.
pub open spec fn escaped(s: Seq<char>) -> Seq<char>
    decreases s.len(),
{
    if s.len() == 0 {
        Seq::empty()
    } else {
        escaped(s.drop_last()) + escape_char(s.last())
    }
}

/// `value` as written in a `.env` file: as it is when every character is plain,
/// else quoted and escaped.
pub open spec fn env_value_text(value: Seq<char>) -> Seq<char> {
    if forall|i: int| 0 <= i < value.len() ==> plain_env_char(#[trigger] value[i]) {
        value
    } else {
        seq!['"'] + escaped(value) + seq!['"']
    }
}

fn is_plain_env_char(c: char) -> (b: bool)
    ensures
        b == plain_env_char(c),
{
    let u = c as u32;
    (0x61 <= u && u <= 0x7A) || (0x41 <= u && u <= 0x5A) || (0x30 <= u && u <= 0x39) || c == '_'
        || c == '-' || c == '.' || c == '/' || c == ':'
}

/// Writes `value` as a `.env` file holds it.
pub fn format_env_value(value: &str) -> (r: String)
    ensures
        r@ == env_value_text(value@),
{
    let v = chars_of(value);
    let n = v.len();
    let mut plain = true;
    let mut i: usize = 0;
    while i < n
        invariant
            n == v@.len(),
            i <= n,
            plain == forall|j: int| 0 <= j < i ==> plain_env_char(#[trigger] v@[j]),
        decreases n - i,
    {
        if !is_plain_env_char(v[i]) {
            plain = false;
        }
        i = i + 1;
    }
    if plain {
        return value.to_owned();
    }
    let mut r = String::new();
    push_char(&mut r, '"');
    assert(v@.take(0) =~= Seq::<char>::empty());
    for k in 0..n
        invariant
            n == v@.len(),
            r@ == seq!['"'] + escaped(v@.take(k as int)),
    {
        let c = v[k];
        if c == '\\' {
            push_char(&mut r, '\\');
            push_char(&mut r, '\\');
        } else if c == '"' {
            push_char(&mut r, '\\');
            push_char(&mut r, '"');
        } else {
            push_char(&mut r, c);
        }
        assert(v@.take(k + 1).drop_last() =~= v@.take(k as int));
        assert(r@ =~= seq!['"'] + escaped(v@.take(k + 1)));
    }
    push_char(&mut r, '"');
    assert(v@.take(n as int) =~= v@);
    r
}

/// `line` without one trailing carriage return.
pub open spec fn strip_cr(line: Seq<char>) -> Seq<char> {
    if line.len() > 0 && line.last() == '\r' {
        line.drop_last()
    } else {
        line
    }
}

/// The lines of `s` from index `pos` on, as `str::lines` gives them: split at
/// each line feed, a carriage return before a line feed dropped, and no empty
/// line after a final line feed.
pub open spec fn lines_from(s: Seq<char>, pos: int) -> Seq<Seq<char>>
    decreases s.len() - pos,
{
    if pos < 0 || pos >= s.len() {
        Seq::empty()
    } else {
        match find_from(s, seq!['\n'], pos) {
            None => seq![s.subrange(pos, s.len() as int)],
            Some(k) => if k < pos || k >= s.len() {
                Seq::empty()
            } else {
                seq![strip_cr(s.subrange(pos, k))] + lines_from(s, k + 1)
            },
        }
    }
}

/// Splits `content` into its lines.
pub fn split_lines(content: &str) -> (r: Vec<String>)
    ensures
        strings_model(r@) == lines_from(content@, 0),
{
    let v = chars_of(content);
    let nl = vec!['\n'];
    let n = v.len();
    let mut lines: Vec<String> = Vec::new();
    let mut pos: usize = 0;
    while pos < n
        invariant
            n == v@.len(),
            v@ == content@,
            nl@ == seq!['\n'],
            pos <= n,
            strings_model(lines@) + lines_from(v@, pos as int) == lines_from(v@, 0),
        decreases n - pos,
    {
        let ghost before = strings_model(lines@);
        match find_in(&v, &nl, pos) {
            None => {
                lines.push(string_from_range(&v, pos, n));
                assert(strings_model(lines@) + lines_from(v@, n as int) =~= before + lines_from(v@, pos as int));
                pos = n;
            },
            Some(k) => {
                proof {
                    crate::text::lemma_find_from_is_first(v@, seq!['\n'], pos as int);
                }
                let mut hi = k;
                if hi > pos && v[hi - 1] == '\r' {
                    hi = hi - 1;
                }
                assert(v@.subrange(pos as int, hi as int) == strip_cr(v@.subrange(pos as int, k as int))) by {
                    if k > pos && v@[k - 1] == '\r' {
                        assert(v@.subrange(pos as int, k as int).drop_last() =~= v@.subrange(pos as int, k - 1));
                    }
                }
                lines.push(string_from_range(&v, pos, hi));
                assert(strings_model(lines@) + lines_from(v@, k + 1) =~= before + lines_from(v@, pos as int));
                pos = k + 1;
            },
        }
    }
    assert(lines_from(v@, pos as int) =~= Seq::<Seq<char>>::empty());
    assert(strings_model(lines@) =~= lines_from(v@, 0));
    lines
}

/// The index of the first `=` in `t`, if any.
pub open spec fn equals_index(t: Seq<char>) -> Option<int> {
    find_from(t, seq!['='], 0)
}

/// `line` assigns the setting `key`: it is no comment, holds `=`, and the
/// trimmed text before its first `=` is `key`.
pub open spec fn assigns(line: Seq<char>, key: Seq<char>) -> bool {
    let t = trim(line);
    &&& !(t.len() > 0 && t[0] == '#')
    &&& match equals_index(t) {
        None => false,
        Some(k) => trim(t.take(k)) == key,
    }
}

/// The index of the first line at or after `from` that assigns `key`.
pub open spec fn first_assignment(lines: Seq<Seq<char>>, key: Seq<char>, from: int) -> Option<int>
    decreases lines.len() - from,
{
    if from < 0 || from >= lines.len() {
        None
    } else if assigns(lines[from], key) {
        Some(from)
    } else {
        first_assignment(lines, key, from + 1)
    }
}

/// The line that assigns `value` to `key`.
pub open spec fn assignment(key: Seq<char>, value: Seq<char>) -> Seq<char> {
    key + "="@ + env_value_text(value)
}

/// `lines` with `key` set to `value`: its first assignment replaced, or a new
/// assignment added at the end.
pub open spec fn set_env_key(lines: Seq<Seq<char>>, key: Seq<char>, value: Seq<char>) -> Seq<Seq<char>> {
    match first_assignment(lines, key, 0) {
        Some(i) => lines.update(i, assignment(key, value)),
        None => lines.push(assignment(key, value)),
    }
}

/// `lines` with the service type, key and model set.
pub open spec fn with_llm_settings(
    lines: Seq<Seq<char>>,
    llm_type: Seq<char>,
    api_key: Seq<char>,
    llm_model: Seq<char>,
) -> Seq<Seq<char>> {
    set_env_key(
        set_env_key(set_env_key(lines, "LLM_TYPE"@, llm_type), "API_KEY"@, api_key),
        "LLM_MODEL"@,
        llm_model,
    )
}

/// The text of a `.env` file with `lines`.
pub open spec fn env_file_text(lines: Seq<Seq<char>>) -> Seq<char> {
    join_with(lines, "\n"@) + "\n"@
}

/// Whether `line` assigns `key`.
fn line_assigns(line: &String, key: &str) -> (b: bool)
    ensures
        b == assigns(line@, key@),
{
    let v = chars_of(line.as_str());
    let (lo, hi) = trim_bounds(&v, 0, v.len());
    assert(v@.subrange(0, v@.len() as int) =~= v@);
    let t = string_from_range(&v, lo, hi);
    let tv = chars_of(t.as_str());
    if tv.len() > 0 && tv[0] == '#' {
        return false;
    }
    let eq = vec!['='];
    assert(eq@ =~= seq!['=']);
    match find_in(&tv, &eq, 0) {
        None => false,
        Some(k) => {
            proof {
                crate::text::lemma_find_from_is_first(tv@, seq!['='], 0);
            }
            let (a, b) = trim_bounds(&tv, 0, k);
            let head = string_from_range(&tv, a, b);
            assert(tv@.subrange(0, k as int) =~= tv@.take(k as int));
            same_text(head.as_str(), key)
        },
    }
}

/// Sets `key` to `value` in `lines`.
fn set_key(lines: &mut Vec<String>, key: &str, value: &str)
    ensures
        strings_model(final(lines)@) == set_env_key(strings_model(old(lines)@), key@, value@),
{
    let mut line = key.to_owned();
    line.append("=");
    let formatted = format_env_value(value);
    line.append(formatted.as_str());
    let ghost model = strings_model(lines@);
    let n = lines.len();
    let mut i: usize = 0;
    while i < n
        invariant
            n == lines@.len(),
            model == strings_model(lines@),
            model == strings_model(old(lines)@),
            i <= n,
            first_assignment(model, key@, 0) == first_assignment(model, key@, i as int),
            line@ == assignment(key@, value@),
        decreases n - i,
    {
        assert(model[i as int] == lines@[i as int]@);
        if line_assigns(&lines[i], key) {
            assert(first_assignment(model, key@, i as int) == Some(i as int));
            lines.set(i, line);
            assert(strings_model(lines@) =~= model.update(i as int, assignment(key@, value@)));
            assert(set_env_key(model, key@, value@) == model.update(i as int, assignment(key@, value@)));
            return;
        }
        i = i + 1;
    }
    lines.push(line);
    assert(strings_model(lines@) =~= model.push(assignment(key@, value@)));
}

/// The lines of a `.env` file after saving the service type, key and model.
pub fn update_env_lines(lines: Vec<String>, llm_type: &str, api_key: &str, llm_model: &str) -> (r: Vec<String>)
    ensures
        strings_model(r@) == with_llm_settings(strings_model(lines@), llm_type@, api_key@, llm_model@),
{
    let mut lines = lines;
    set_key(&mut lines, "LLM_TYPE", llm_type);
    set_key(&mut lines, "API_KEY", api_key);
    set_key(&mut lines, "LLM_MODEL", llm_model);
    lines
}

/// The text of a `.env` file with `lines`: the lines joined, and a final line feed.
pub fn env_text(lines: &Vec<String>) -> (r: String)
    ensures
        r@ == env_file_text(strings_model(lines@)),
{
    let mut r = join_strings(lines, "\n");
    r.append("\n");
    r
}

/// `c` is a decimal digit.
pub open spec fn is_digit(c: char) -> bool {
    '0' <= c <= '9'
}

/// The number the decimal digits `s` spell.
pub open spec fn digits_value(s: Seq<char>) -> nat
    decreases s.len(),
{
    if s.len() == 0 {
        0
    } else {
        digits_value(s.drop_last()) * 10 + ((s.last() as u32) - 48) as nat
    }
}

/// `s` is one or more decimal digits.
pub open spec fn all_digits(s: Seq<char>) -> bool {
    s.len() > 0 && forall|i: int| 0 <= i < s.len() ==> is_digit(#[trigger] s[i])
}

/// The number `text` spells as `str::parse` reads an unsigned integer: an
/// optional `+`, then only digits.
pub open spec fn unsigned_number(text: Seq<char>) -> Option<int> {
    let body = if text.len() > 0 && text[0] == '+' { text.drop_first() } else { text };
    if all_digits(body) {
        Some(digits_value(body) as int)
    } else {
        None
    }
}

/// The number `text` spells as `str::parse` reads a signed integer: an
/// optional `+` or `-`, then only digits.
pub open spec fn signed_number(text: Seq<char>) -> Option<int> {
    if text.len() > 0 && text[0] == '-' {
        if all_digits(text.drop_first()) {
            Some(-(digits_value(text.drop_first()) as int))
        } else {
            None
        }
    } else {
        unsigned_number(text)
    }
}

proof fn lemma_digits_prefix_le(s: Seq<char>, k: int)
    requires
        0 <= k <= s.len(),
        forall|i: int| 0 <= i < s.len() ==> is_digit(#[trigger] s[i]),
    ensures
        digits_value(s.take(k)) <= digits_value(s),
    decreases s.len() - k,
{
    if k < s.len() {
        assert(s.take(k + 1).drop_last() =~= s.take(k));
        assert(is_digit(s[k]));
        lemma_digits_prefix_le(s, k + 1);
    } else {
        assert(s.take(k) =~= s);
    }
}

/// The value of the digits of `v` from `from` on, when they are one or more
/// digits spelling at most `limit`.
fn digits_upto(v: &Vec<char>, from: usize, limit: u64) -> (r: Option<u64>)
    requires
        from <= v@.len(),
        limit <= 0x1_0000_0000,
    ensures
        ({
            let body = v@.skip(from as int);
            match r {
                Some(x) => all_digits(body) && x == digits_value(body) && x <= limit,
                None => !(all_digits(body) && digits_value(body) <= limit),
            }
        }),
{
    let n = v.len();
    let ghost body = v@.skip(from as int);
    if from == n {
        return None;
    }
    let mut i = from;
    while i < n
        invariant
            from <= i <= n,
            n == v@.len(),
            body == v@.skip(from as int),
            forall|j: int| 0 <= j < i - from ==> is_digit(#[trigger] body[j]),
        decreases n - i,
    {
        if !('0' <= v[i] && v[i] <= '9') {
            assert(body[i - from] == v@[i as int]);
            return None;
        }
        assert(body[i - from] == v@[i as int]);
        i = i + 1;
    }
    let mut value: u64 = 0;
    let mut k = from;
    assert(body.take(0) =~= Seq::<char>::empty());
    while k < n
        invariant
            from <= k <= n,
            n == v@.len(),
            body == v@.skip(from as int),
            body.len() == n - from,
            forall|j: int| 0 <= j < body.len() ==> is_digit(#[trigger] body[j]),
            value == digits_value(body.take(k - from)),
            value <= limit,
            limit <= 0x1_0000_0000,
        decreases n - k,
    {
        assert(body.take(k + 1 - from).drop_last() =~= body.take(k - from));
        assert(body[k - from] == v@[k as int]);
        assert(is_digit(body[k - from]));
        let d = (v[k] as u32 - 48) as u64;
        value = value * 10 + d;
        if value > limit {
            proof {
                lemma_digits_prefix_le(body, k + 1 - from);
            }
            return None;
        }
        k = k + 1;
    }
    assert(body.take(n - from) =~= body);
    Some(value)
}

/// `text` read as a `u32` the way `str::parse` reads it, or `default` when
/// it is no such number.
pub fn parse_u32_or(text: &str, default: u32) -> (r: u32)
    ensures
        r == match unsigned_number(text@) {
            Some(x) => if x <= u32::MAX { x } else { default as int },
            None => default as int,
        },
{
    let v = chars_of(text);
    let from: usize = if v.len() > 0 && v[0] == '+' { 1 } else { 0 };
    assert(from == 1 ==> v@.skip(1) =~= v@.drop_first());
    assert(v@.skip(0) =~= v@);
    match digits_upto(&v, from, 0xFFFF_FFFF) {
        Some(x) => x as u32,
        None => default,
    }
}

/// `text` read as an `i32` the way `str::parse` reads it, or `default` when
/// it is no such number.
pub fn parse_i32_or(text: &str, default: i32) -> (r: i32)
    ensures
        r == match signed_number(text@) {
            Some(x) => if i32::MIN <= x <= i32::MAX { x } else { default as int },
            None => default as int,
        },
{
    let v = chars_of(text);
    assert(v@.skip(0) =~= v@);
    assert(v@.len() > 0 ==> v@.skip(1) =~= v@.drop_first());
    if v.len() > 0 && v[0] == '-' {
        match digits_upto(&v, 1, 0x8000_0000) {
            Some(x) => if x == 0x8000_0000 {
                i32::MIN
            } else {
                -(x as i32)
            },
            None => default,
        }
    } else {
        let from: usize = if v.len() > 0 && v[0] == '+' { 1 } else { 0 };
        match digits_upto(&v, from, 0x7FFF_FFFF) {
            Some(x) => x as i32,
            None => default,
        }
    }
}

} // verus!
