//! Tool calls that a model wrote into its text instead of making them.

use crate::json::{
    json_of_text, lemma_member_views, lookup, member_views, opt_json, parse_json, Json, JsonView,
};
use crate::text::{
    chars_of, comes_before, concat, contains, contains_text, decimal, find_chars, find_from, join,
    joined, lemma_find_from, lines_of, opt_text, push_decimal, push_line, remove_all, same_text,
    skip_chars, split_lines, text_before, text_of, texts, trim, trimmed, without_all,
};
use vstd::prelude::*;

verus! {

/// A tool call that was found in a text.
#[derive(Debug)]
pub struct ParsedToolCall {
    pub name: String,
    pub args: Json,
    pub id: String,
}

/// A tool call that was found in a text, as contracts see it.
#[verifier::ext_equal]
pub struct ParsedView {
    pub name: Seq<char>,
    pub args: JsonView,
    pub id: Seq<char>,
}

impl View for ParsedToolCall {
    type V = ParsedView;

    open spec fn view(&self) -> ParsedView {
        ParsedView { name: self.name@, args: self.args@, id: self.id@ }
    }
}

/// The views of a list of calls.
pub open spec fn call_views(calls: Seq<ParsedToolCall>) -> Seq<ParsedView> {
    calls.map_values(|c: ParsedToolCall| c@)
}

/// A text without the tool calls in it, and the calls.
#[derive(Debug)]
pub struct ParseResult {
    pub clean_text: String,
    pub tool_calls: Vec<ParsedToolCall>,
}

/// A text without the tool calls in it, and the calls, as contracts see them.
#[verifier::ext_equal]
pub struct ParseView {
    pub clean: Seq<char>,
    pub calls: Seq<ParsedView>,
}

impl View for ParseResult {
    type V = ParseView;

    open spec fn view(&self) -> ParseView {
        ParseView { clean: self.clean_text@, calls: call_views(self.tool_calls@) }
    }
}

pub const TOOL_CALL_PATTERN: &'static str = r"(?s)\[TOOL_CALL\]\s*(.*?)\s*\[/TOOL_CALL\]";

pub const XML_TOOL_CALL_PATTERN: &'static str = r"(?s)<(?:codewhale:)?tool_call[^>]*>\s*(.*?)\s*</(?:codewhale:)?tool_call>";

pub const INVOKE_PATTERN: &'static str = r#"(?s)<invoke\s+name\s*=\s*"([^"]+)"[^>]*>(.*?)</invoke>"#;

pub const THINKING_PATTERN: &'static str = r"(?s)</?(?:think|thinking)[^>]*>";

pub const FAKE_TOOL_WRAPPER_PATTERN: &'static str = r#"(?s)<function_calls>.*?</function_calls>|<｜DSML｜tool_calls>.*?</｜DSML｜tool_calls>|<｜DSML｜invoke\b[^>]*>.*?</｜DSML｜invoke>|<\|DSML\|tool_calls>.*?</\|DSML\|tool_calls>|<\|DSML\|invoke\b[^>]*>.*?</\|DSML\|invoke>|<\|dsml\|tool_calls>.*?</\|dsml\|tool_calls>|<\|dsml\|invoke\b[^>]*>.*?</\|dsml\|invoke>|<\|tool_calls>.*?</\|tool_calls>"#;

pub const PARAMETER_PATTERN: &'static str = "<(?:parameter|param)\\s+name\\s*=\\s*\"([^\"]+)\"[^>]*>(.*?)</(?:parameter|param)>";

pub const SIMPLE_TAG_PATTERN: &'static str = "<([a-zA-Z_][a-zA-Z0-9_]*)>(.*?)</([a-zA-Z_][a-zA-Z0-9_]*)>";

pub const ARROW_TOOL_PATTERN: &'static str = r#"tool\s*=>\s*"([^"]+)""#;

pub const CLI_ARGUMENT_PATTERN: &'static str = r#"--([a-zA-Z_][a-zA-Z0-9_]*)\s+(?:"([^"]*)"|'([^']*)'|(\S+))"#;

pub const KEY_VALUE_PATTERN: &'static str = r#"([a-zA-Z_][a-zA-Z0-9_]*)\s*[:=]\s*(?:"([^"]*)"|'([^']*)'|(\S+))"#;

pub const FLEXIBLE_PATTERN: &'static str = r#"(?:tool|name|function)\s*[:=]\s*"?([a-zA-Z_][a-zA-Z0-9_]*)"?"#;

/// The groups of one match of a pattern; the whole match is the first.
pub open spec fn groups(list: Seq<Option<String>>) -> Seq<Option<Seq<char>>> {
    list.map_values(|g: Option<String>| opt_text(g))
}

/// The groups of each match of a pattern.
pub open spec fn all_groups(list: Seq<Vec<Option<String>>>) -> Seq<Seq<Option<Seq<char>>>> {
    list.map_values(|m: Vec<Option<String>>| groups(m@))
}

/// The groups of each match of a pattern in a text.
pub uninterp spec fn captured(pattern: Seq<char>, text: Seq<char>) -> Seq<Seq<Option<Seq<char>>>>;

/// A text without the matches of a pattern.
pub uninterp spec fn erased(pattern: Seq<char>, text: Seq<char>) -> Seq<char>;

/// `regex::Regex::captures_iter`: the texts of the groups of each match of a
/// pattern in a text, a function of the two; no match where the pattern is not
/// a regular expression.
#[verifier::external_body]
pub(crate) fn captures_of(pattern: &str, text: &str) -> (r: Vec<Vec<Option<String>>>)
    ensures
        all_groups(r@) == captured(pattern@, text@),
{
    match regex::Regex::new(pattern) {
        Ok(regex) => regex
            .captures_iter(text)
            .map(|c| c.iter().map(|g| g.map(|m| m.as_str().to_owned())).collect())
            .collect(),
        Err(_) => Vec::new(),
    }
}

/// `regex::Regex::replace_all` with nothing in place of a match: a function of
/// the pattern and the text; the text as it is where the pattern is not a
/// regular expression.
#[verifier::external_body]
fn erase_matches(pattern: &str, text: &str) -> (r: String)
    ensures
        r@ == erased(pattern@, text@),
{
    match regex::Regex::new(pattern) {
        Ok(regex) => regex.replace_all(text, "").to_string(),
        Err(_) => text.to_owned(),
    }
}

/// The text of a group of a match.
pub open spec fn group(m: Seq<Option<Seq<char>>>, k: int) -> Option<Seq<char>> {
    if 0 <= k < m.len() {
        m[k]
    } else {
        None
    }
}

pub(crate) fn group_of(m: &Vec<Option<String>>, k: usize) -> (r: Option<&String>)
    ensures
        match r {
            Some(s) => group(groups(m@), k as int) == Some(s@),
            None => group(groups(m@), k as int) is None,
        },
{
    assert(groups(m@).len() == m@.len());
    if k < m.len() {
        assert(groups(m@)[k as int] == opt_text(m@[k as int]));
        match &m[k] {
            Some(s) => Some(s),
            None => None,
        }
    } else {
        None
    }
}

/// The members of an object, in the order of their keys, after a value was set.
pub open spec fn with_member(
    m: Seq<(Seq<char>, JsonView)>,
    key: Seq<char>,
    value: JsonView,
    from: int,
) -> Seq<(Seq<char>, JsonView)>
    decreases m.len() - from,
{
    if from < 0 || from >= m.len() {
        m.push((key, value))
    } else if m[from].0 == key {
        m.update(from, (key, value))
    } else if text_before(key, m[from].0) {
        m.insert(from, (key, value))
    } else {
        with_member(m, key, value, from + 1)
    }
}

fn set_member(members: &mut Vec<(String, Json)>, key: &str, value: Json)
    ensures
        member_views(final(members)@) == with_member(
            member_views(old(members)@),
            key@,
            value@,
            0,
        ),
{
    let ghost before = members@;
    let ghost views = member_views(before);
    proof {
        lemma_member_views(before);
    }
    let mut i: usize = 0;
    while i < members.len()
        invariant
            i <= members@.len(),
            members@ == before,
            before == old(members)@,
            views == member_views(before),
            views.len() == before.len(),
            forall|k: int|
                0 <= k < before.len() ==> #[trigger] views[k] == (before[k].0@, before[k].1@),
            with_member(views, key@, value@, 0) == with_member(views, key@, value@, i as int),
        decreases members@.len() - i,
    {
        assert(views[i as int] == (before[i as int].0@, before[i as int].1@));
        if same_text(members[i].0.as_str(), key) {
            members.set(i, (key.to_owned(), value));
            proof {
                lemma_member_views(members@);
                assert(member_views(members@) =~= views.update(i as int, (key@, value@)));
            }
            return;
        }
        if comes_before(key, members[i].0.as_str()) {
            members.insert(i, (key.to_owned(), value));
            proof {
                lemma_member_views(members@);
                assert(member_views(members@) =~= views.insert(i as int, (key@, value@)));
            }
            return;
        }
        i += 1;
    }
    members.push((key.to_owned(), value));
    proof {
        lemma_member_views(members@);
        assert(member_views(members@) =~= views.push((key@, value@)));
    }
}

fn has_member(members: &Vec<(String, Json)>, key: &str) -> (r: bool)
    ensures
        r == (lookup(member_views(members@), key@, 0) is Some),
{
    let ghost views = member_views(members@);
    proof {
        lemma_member_views(members@);
    }
    let mut i: usize = 0;
    while i < members.len()
        invariant
            i <= members@.len(),
            views == member_views(members@),
            views.len() == members@.len(),
            forall|k: int|
                0 <= k < views.len() ==> #[trigger] views[k] == (members@[k].0@, members@[k].1@),
            lookup(views, key@, 0) == lookup(views, key@, i as int),
        decreases members@.len() - i,
    {
        assert(views[i as int] == (members@[i as int].0@, members@[i as int].1@));
        if same_text(members[i].0.as_str(), key) {
            return true;
        }
        i += 1;
    }
    false
}

/// The value that a text stands for: the JSON in it, else the text itself.
pub open spec fn value_of(parsed: Option<JsonView>, text: Seq<char>) -> JsonView {
    match parsed {
        Some(v) => v,
        None => JsonView::Str(text),
    }
}

/// The value that a text stands for, given the JSON in it.
pub fn value_or_text(parsed: Option<Json>, text: &str) -> (r: Json)
    ensures
        r@ == value_of(opt_json(parsed), text@),
{
    match parsed {
        Some(v) => v,
        None => Json::Str(text.to_owned()),
    }
}

/// The members that the first `n` parameters set; a later one replaces an
/// earlier one of its name.
pub open spec fn parameter_members(
    list: Seq<Seq<Option<Seq<char>>>>,
    n: nat,
) -> Seq<(Seq<char>, JsonView)>
    decreases n,
{
    if n == 0 {
        Seq::empty()
    } else {
        let before = parameter_members(list, (n - 1) as nat);
        match (group(list[n - 1], 1), group(list[n - 1], 2)) {
            (Some(name), Some(value)) => with_member(
                before,
                name,
                value_of(json_of_text(trimmed(value)), trimmed(value)),
                0,
            ),
            _ => before,
        }
    }
}

/// A tag that names no parameter.
pub open spec fn is_wrapper_tag(name: Seq<char>) -> bool {
    name == "invoke"@ || name == "tool_call"@ || name == "parameter"@ || name == "param"@
}

/// The members after the first `n` simple tags: one that closes with its own
/// name sets a member that is not there yet.
pub open spec fn tag_members(
    start: Seq<(Seq<char>, JsonView)>,
    list: Seq<Seq<Option<Seq<char>>>>,
    n: nat,
) -> Seq<(Seq<char>, JsonView)>
    decreases n,
{
    if n == 0 {
        start
    } else {
        let before = tag_members(start, list, (n - 1) as nat);
        match (group(list[n - 1], 1), group(list[n - 1], 2), group(list[n - 1], 3)) {
            (Some(name), Some(value), Some(close)) => if name == close && !is_wrapper_tag(name)
                && lookup(before, name, 0) is None {
                with_member(before, name, value_of(json_of_text(trimmed(value)), trimmed(value)), 0)
            } else {
                before
            },
            _ => before,
        }
    }
}

/// The arguments that a block in tags holds.
pub open spec fn tagged_arguments(content: Seq<char>) -> JsonView {
    let params = captured(PARAMETER_PATTERN@, content);
    let tags = captured(SIMPLE_TAG_PATTERN@, content);
    JsonView::Object(
        tag_members(parameter_members(params, params.len()), tags, tags.len()),
    )
}

/// The arguments that parameters and simple tags set, given their groups.
pub fn arguments_from_tags(
    params: &Vec<Vec<Option<String>>>,
    tags: &Vec<Vec<Option<String>>>,
) -> (r: Json)
    ensures
        r@ == JsonView::Object(
            tag_members(
                parameter_members(all_groups(params@), params@.len()),
                all_groups(tags@),
                tags@.len(),
            ),
        ),
{
    let ghost pv = all_groups(params@);
    let ghost tv = all_groups(tags@);
    let mut members: Vec<(String, Json)> = Vec::new();
    let mut i: usize = 0;
    proof {
        lemma_member_views(members@);
        assert(member_views(members@) =~= Seq::empty());
    }
    while i < params.len()
        invariant
            i <= params@.len(),
            pv == all_groups(params@),
            member_views(members@) == parameter_members(pv, i as nat),
        decreases params@.len() - i,
    {
        assert(pv[i as int] == groups(params@[i as int]@));
        if let Some(name) = group_of(&params[i], 1) {
            if let Some(value) = group_of(&params[i], 2) {
                let text = trim(value.as_str());
                let parsed = parse_json(text.as_str());
                let json = value_or_text(parsed, text.as_str());
                set_member(&mut members, name.as_str(), json);
            }
        }
        i += 1;
    }
    let ghost start = member_views(members@);
    let mut k: usize = 0;
    while k < tags.len()
        invariant
            k <= tags@.len(),
            tv == all_groups(tags@),
            member_views(members@) == tag_members(start, tv, k as nat),
        decreases tags@.len() - k,
    {
        assert(tv[k as int] == groups(tags@[k as int]@));
        if let Some(name) = group_of(&tags[k], 1) {
            if let Some(value) = group_of(&tags[k], 2) {
                if let Some(close) = group_of(&tags[k], 3) {
                    let n = name.as_str();
                    if same_text(n, close.as_str()) && !(same_text(n, "invoke") || same_text(
                        n,
                        "tool_call",
                    ) || same_text(n, "parameter") || same_text(n, "param")) {
                        if !has_member(&members, n) {
                            let text = trim(value.as_str());
                            let parsed = parse_json(text.as_str());
                            let json = value_or_text(parsed, text.as_str());
                            set_member(&mut members, n, json);
                        }
                    }
                }
            }
        }
        k += 1;
    }
    Json::Object(members)
}

fn parse_xml_parameters(content: &str) -> (r: Json)
    ensures
        r@ == tagged_arguments(content@),
{
    let params = captures_of(PARAMETER_PATTERN, content);
    let tags = captures_of(SIMPLE_TAG_PATTERN, content);
    proof {
        assert(all_groups(params@).len() == params@.len());
        assert(all_groups(tags@).len() == tags@.len());
    }
    arguments_from_tags(&params, &tags)
}

/// A call that was found, before it gets its number. A call in tags is numbered
/// otherwise than one in plain text.
#[derive(Debug)]
pub struct FoundCall {
    pub name: String,
    pub args: Json,
    pub tagged: bool,
}

/// A call that was found, as contracts see it.
#[verifier::ext_equal]
pub struct FoundView {
    pub name: Seq<char>,
    pub args: JsonView,
    pub tagged: bool,
}

impl View for FoundCall {
    type V = FoundView;

    open spec fn view(&self) -> FoundView {
        FoundView { name: self.name@, args: self.args@, tagged: self.tagged }
    }
}

/// The view of a call, where one was found.
pub open spec fn opt_found(c: Option<FoundCall>) -> Option<FoundView> {
    match c {
        Some(f) => Some(f@),
        None => None,
    }
}

/// The call that a block in tags makes, given the match of its opening tag.
pub open spec fn invoked(matches: Seq<Seq<Option<Seq<char>>>>) -> Option<FoundView> {
    if matches.len() == 0 {
        None
    } else {
        match (group(matches[0], 1), group(matches[0], 2)) {
            (Some(name), Some(inner)) => Some(
                FoundView { name, args: tagged_arguments(inner), tagged: true },
            ),
            _ => None,
        }
    }
}

fn parse_invoke_block(content: &str) -> (r: Option<FoundCall>)
    ensures
        opt_found(r) == invoked(captured(INVOKE_PATTERN@, content@)),
{
    let matches = captures_of(INVOKE_PATTERN, content);
    proof {
        assert(all_groups(matches@).len() == matches@.len());
    }
    if matches.len() == 0 {
        return None;
    }
    assert(all_groups(matches@)[0] == groups(matches@[0]@));
    match group_of(&matches[0], 1) {
        Some(name) => match group_of(&matches[0], 2) {
            Some(inner) => Some(
                FoundCall {
                    name: name.clone(),
                    args: parse_xml_parameters(inner.as_str()),
                    tagged: true,
                },
            ),
            None => None,
        },
        None => None,
    }
}

/// The first member that is there, of two.
pub open spec fn either(a: Option<JsonView>, b: Option<JsonView>) -> Option<JsonView> {
    match a {
        Some(_) => a,
        None => b,
    }
}

/// The call that an object states: a name under one of three keys, and the
/// arguments under one of four.
pub open spec fn stated_call(json: JsonView) -> Option<FoundView> {
    if json.members() is None {
        None
    } else {
        let name = either(
            either(json.field("tool"@), json.field("name"@)),
            json.field("function"@),
        );
        let args = either(
            either(
                either(json.field("args"@), json.field("arguments"@)),
                json.field("input"@),
            ),
            json.field("parameters"@),
        );
        match name {
            Some(v) => match v.text() {
                Some(n) => Some(
                    FoundView {
                        name: n,
                        args: match args {
                            Some(a) => a,
                            None => JsonView::Object(Seq::empty()),
                        },
                        tagged: false,
                    },
                ),
                None => None,
            },
            None => None,
        }
    }
}

fn empty_object() -> (r: Json)
    ensures
        r@ == JsonView::Object(Seq::empty()),
{
    let members: Vec<(String, Json)> = Vec::new();
    proof {
        lemma_member_views(members@);
        assert(member_views(members@) =~= Seq::empty());
    }
    Json::Object(members)
}

fn first_present<'a>(json: &'a Json, a: &str, b: &str) -> (r: Option<&'a Json>)
    ensures
        match r {
            Some(v) => either(json@.field(a@), json@.field(b@)) == Some(v@),
            None => either(json@.field(a@), json@.field(b@)) is None,
        },
{
    match json.get(a) {
        Some(v) => Some(v),
        None => json.get(b),
    }
}

/// The call that an object states.
pub fn parse_from_json(json: &Json) -> (r: Option<FoundCall>)
    ensures
        opt_found(r) == stated_call(json@),
{
    if json.as_object().is_none() {
        return None;
    }
    let name = match first_present(json, "tool", "name") {
        Some(v) => v,
        None => match json.get("function") {
            Some(v) => v,
            None => return None,
        },
    };
    let name = match name.as_str() {
        Some(n) => n,
        None => return None,
    };
    let args = match first_present(json, "args", "arguments") {
        Some(a) => a.clone(),
        None => match first_present(json, "input", "parameters") {
            Some(a) => a.clone(),
            None => empty_object(),
        },
    };
    Some(FoundCall { name: name.to_owned(), args, tagged: false })
}

/// The value of an argument on a command line: quoted twice, quoted once or
/// bare.
pub open spec fn argument_value(m: Seq<Option<Seq<char>>>) -> Seq<char> {
    match group(m, 2) {
        Some(v) => v,
        None => match group(m, 3) {
            Some(v) => v,
            None => match group(m, 4) {
                Some(v) => v,
                None => ""@,
            },
        },
    }
}

fn value_in(m: &Vec<Option<String>>) -> (r: String)
    ensures
        r@ == argument_value(groups(m@)),
{
    match group_of(m, 2) {
        Some(v) => v.clone(),
        None => match group_of(m, 3) {
            Some(v) => v.clone(),
            None => match group_of(m, 4) {
                Some(v) => v.clone(),
                None => "".to_owned(),
            },
        },
    }
}

/// The members after the first `n` arguments; `replace` tells whether one that
/// is there is set anew.
pub open spec fn argument_members(
    start: Seq<(Seq<char>, JsonView)>,
    list: Seq<Seq<Option<Seq<char>>>>,
    n: nat,
    replace: bool,
) -> Seq<(Seq<char>, JsonView)>
    decreases n,
{
    if n == 0 {
        start
    } else {
        let before = argument_members(start, list, (n - 1) as nat, replace);
        let m = list[n - 1];
        match group(m, 1) {
            Some(key) => if replace || lookup(before, key, 0) is None {
                with_member(
                    before,
                    key,
                    value_of(json_of_text(argument_value(m)), argument_value(m)),
                    0,
                )
            } else {
                before
            },
            None => before,
        }
    }
}

fn add_arguments(
    members: &mut Vec<(String, Json)>,
    list: &Vec<Vec<Option<String>>>,
    replace: bool,
)
    ensures
        member_views(final(members)@) == argument_members(
            member_views(old(members)@),
            all_groups(list@),
            list@.len(),
            replace,
        ),
{
    let ghost start = member_views(members@);
    let ghost all = all_groups(list@);
    let mut i: usize = 0;
    while i < list.len()
        invariant
            i <= list@.len(),
            all == all_groups(list@),
            member_views(members@) == argument_members(start, all, i as nat, replace),
        decreases list@.len() - i,
    {
        assert(all[i as int] == groups(list@[i as int]@));
        if let Some(key) = group_of(&list[i], 1) {
            if replace || !has_member(members, key.as_str()) {
                let value = value_in(&list[i]);
                let parsed = parse_json(value.as_str());
                let json = value_or_text(parsed, value.as_str());
                set_member(members, key.as_str(), json);
            }
        }
        i += 1;
    }
}

/// The arguments that a text like a command line holds, then those that stand
/// as keys with values.
pub open spec fn command_line_arguments(content: Seq<char>) -> JsonView {
    let flags = captured(CLI_ARGUMENT_PATTERN@, content);
    let pairs = captured(KEY_VALUE_PATTERN@, content);
    JsonView::Object(
        argument_members(
            argument_members(Seq::empty(), flags, flags.len(), true),
            pairs,
            pairs.len(),
            false,
        ),
    )
}

/// The arguments that flags and pairs set, given their groups.
pub fn arguments_from_flags(
    flags: &Vec<Vec<Option<String>>>,
    pairs: &Vec<Vec<Option<String>>>,
) -> (r: Json)
    ensures
        r@ == JsonView::Object(
            argument_members(
                argument_members(Seq::empty(), all_groups(flags@), flags@.len(), true),
                all_groups(pairs@),
                pairs@.len(),
                false,
            ),
        ),
{
    let mut members: Vec<(String, Json)> = Vec::new();
    proof {
        lemma_member_views(members@);
        assert(member_views(members@) =~= Seq::empty());
    }
    add_arguments(&mut members, flags, true);
    add_arguments(&mut members, pairs, false);
    Json::Object(members)
}

fn parse_cli_style_args(content: &str) -> (r: Json)
    ensures
        r@ == command_line_arguments(content@),
{
    let flags = captures_of(CLI_ARGUMENT_PATTERN, content);
    let pairs = captures_of(KEY_VALUE_PATTERN, content);
    proof {
        assert(all_groups(flags@).len() == flags@.len());
        assert(all_groups(pairs@).len() == pairs@.len());
    }
    arguments_from_flags(&flags, &pairs)
}

/// The place behind which the braces that open at the start of `s` are closed,
/// looked for from the `i`th character on with `open` braces open.
pub open spec fn closing_brace(s: Seq<char>, i: int, open: int) -> Option<int>
    decreases s.len() - i,
{
    if i < 0 || i >= s.len() {
        None
    } else if s[i] == '{' {
        closing_brace(s, i + 1, open + 1)
    } else if s[i] == '}' {
        if open - 1 == 0 {
            Some(i)
        } else {
            closing_brace(s, i + 1, open - 1)
        }
    } else {
        closing_brace(s, i + 1, open)
    }
}

fn find_closing_brace(s: &Vec<char>) -> (r: Option<usize>)
    requires
        s@.len() > 0,
        s@[0] == '{',
    ensures
        match r {
            Some(i) => 0 < i < s@.len() && closing_brace(s@, 0, 0) == Some(i as int),
            None => closing_brace(s@, 0, 0) is None,
        },
{
    let mut open: usize = 1;
    let mut i: usize = 1;
    while i < s.len()
        invariant
            1 <= i <= s@.len(),
            1 <= open <= i,
            closing_brace(s@, 0, 0) == closing_brace(s@, i as int, open as int),
        decreases s@.len() - i,
    {
        if s[i] == '{' {
            open += 1;
        } else if s[i] == '}' {
            if open == 1 {
                return Some(i);
            }
            open -= 1;
        }
        i += 1;
    }
    None
}

/// What a search came to that can also fail to be carried out. It fails where the
/// braces behind an arrow do not close.
#[derive(Debug)]
pub enum Search<T> {
    Found(T),
    Nothing,
    Broken,
}

/// What stands between the braces that open at the start of `s`.
pub open spec fn between_braces(s: Seq<char>) -> Option<Seq<char>> {
    match closing_brace(s, 0, 0) {
        Some(i) => Some(s.subrange(1, i)),
        None => None,
    }
}

/// The arguments behind an arrow.
pub open spec fn arrow_arguments(inner: Seq<char>) -> Option<JsonView> {
    match find_from(inner, "args =>"@, 0) {
        None => Some(JsonView::Object(Seq::empty())),
        Some(at) => {
            let text = trimmed(inner.skip(at + 7));
            match json_of_text(text) {
                Some(v) => Some(v),
                None => match find_from(text, "{"@, 0) {
                    None => Some(JsonView::Object(Seq::empty())),
                    Some(b) => match between_braces(text.skip(b)) {
                        Some(content) => Some(
                            match json_of_text("{"@ + content + "}"@) {
                                Some(v) => v,
                                None => command_line_arguments(content),
                            },
                        ),
                        None => None,
                    },
                },
            }
        },
    }
}

fn parse_arrow_arguments(inner: &str) -> (r: Option<Json>)
    ensures
        opt_json(r) == arrow_arguments(inner@),
{
    let c = chars_of(inner);
    let key = chars_of("args =>");
    proof {
        reveal_strlit("args =>");
        reveal_strlit("{");
        lemma_find_from(inner@, "args =>"@, 0);
    }
    let at = match find_chars(&c, &key, 0) {
        Some(i) => i,
        None => return Some(empty_object()),
    };
    assert(at + 7 <= c.len());
    let behind = text_of(&c, at + 7, c.len());
    proof {
        assert(behind@ =~= inner@.skip(at + 7));
    }
    let text = trim(behind.as_str());
    if let Some(v) = parse_json(text.as_str()) {
        return Some(v);
    }
    let t = chars_of(text.as_str());
    let brace = chars_of("{");
    proof {
        lemma_find_from(text@, "{"@, 0);
    }
    let b = match find_chars(&t, &brace, 0) {
        Some(i) => i,
        None => return Some(empty_object()),
    };
    let s = skip_chars(&t, b);
    proof {
        assert(text@.subrange(b as int, b + 1)[0] == "{"@[0]);
        assert(s@ =~= text@.skip(b as int));
        assert(s@[0] == '{');
    }
    let i = match find_closing_brace(&s) {
        Some(i) => i,
        None => return None,
    };
    let content = text_of(&s, 1, i);
    let mut object = concat("{", content.as_str());
    object.append("}");
    match parse_json(object.as_str()) {
        Some(v) => Some(v),
        None => Some(parse_cli_style_args(content.as_str())),
    }
}

/// The call that arrows state, given the match of the name.
pub open spec fn arrow_call(
    names: Seq<Seq<Option<Seq<char>>>>,
    inner: Seq<char>,
) -> Search<FoundView> {
    if names.len() == 0 {
        Search::Nothing
    } else {
        match group(names[0], 1) {
            Some(name) => match arrow_arguments(inner) {
                Some(args) => Search::Found(FoundView { name, args, tagged: false }),
                None => Search::Broken,
            },
            None => Search::Nothing,
        }
    }
}

/// The view of a search.
pub open spec fn search_view(r: Search<FoundCall>) -> Search<FoundView> {
    match r {
        Search::Found(c) => Search::Found(c@),
        Search::Nothing => Search::Nothing,
        Search::Broken => Search::Broken,
    }
}

fn parse_arrow_syntax(inner: &str) -> (r: Search<FoundCall>)
    ensures
        search_view(r) == arrow_call(captured(ARROW_TOOL_PATTERN@, inner@), inner@),
{
    let names = captures_of(ARROW_TOOL_PATTERN, inner);
    proof {
        assert(all_groups(names@).len() == names@.len());
    }
    if names.len() == 0 {
        return Search::Nothing;
    }
    assert(all_groups(names@)[0] == groups(names@[0]@));
    match group_of(&names[0], 1) {
        Some(name) => match parse_arrow_arguments(inner) {
            Some(args) => Search::Found(FoundCall { name: name.clone(), args, tagged: false }),
            None => Search::Broken,
        },
        None => Search::Nothing,
    }
}

/// The place of the brace that closes the object which opens at the start of `s`,
/// looked for from the `i`th character on with `open` braces open. What stands in
/// quotes opens and closes nothing; behind a backslash a quote does not end them.
pub open spec fn object_end(
    s: Seq<char>,
    i: int,
    open: int,
    quoted: bool,
    escaped: bool,
) -> Option<int>
    decreases s.len() - i,
{
    if i < 0 || i >= s.len() {
        None
    } else if quoted {
        if escaped {
            object_end(s, i + 1, open, true, false)
        } else {
            object_end(s, i + 1, open, s[i] != '"', s[i] == '\\')
        }
    } else if s[i] == '"' {
        object_end(s, i + 1, open, true, false)
    } else if s[i] == '{' {
        object_end(s, i + 1, open + 1, false, false)
    } else if s[i] == '}' {
        if open == 1 {
            Some(i)
        } else {
            object_end(s, i + 1, open - 1, false, false)
        }
    } else {
        object_end(s, i + 1, open, false, false)
    }
}

fn find_object_end(s: &Vec<char>) -> (r: Option<usize>)
    requires
        s@.len() > 0,
        s@[0] == '{',
    ensures
        match r {
            Some(i) => 0 < i < s@.len() && object_end(s@, 0, 0, false, false) == Some(i as int),
            None => object_end(s@, 0, 0, false, false) is None,
        },
{
    let mut open: usize = 1;
    let mut quoted: bool = false;
    let mut escaped: bool = false;
    let mut i: usize = 1;
    while i < s.len()
        invariant
            1 <= i <= s@.len(),
            1 <= open <= i,
            escaped ==> quoted,
            object_end(s@, 0, 0, false, false) == object_end(
                s@,
                i as int,
                open as int,
                quoted,
                escaped,
            ),
        decreases s@.len() - i,
    {
        let c = s[i];
        if quoted {
            if escaped {
                escaped = false;
            } else {
                quoted = c != '"';
                escaped = c == '\\';
            }
        } else if c == '"' {
            quoted = true;
        } else if c == '{' {
            open += 1;
        } else if c == '}' {
            if open == 1 {
                return Some(i);
            }
            open -= 1;
        }
        i += 1;
    }
    None
}

/// The first object in a text. Without a brace that closes it there is none.
pub open spec fn object_in(text: Seq<char>) -> Option<JsonView> {
    match find_from(text, "{"@, 0) {
        None => None,
        Some(b) => {
            let s = text.skip(b);
            match object_end(s, 0, 0, false, false) {
                None => None,
                Some(i) => json_of_text(s.take(i + 1)),
            }
        },
    }
}

/// The first object in a text.
pub fn extract_json_object(text: &str) -> (r: Option<Json>)
    ensures
        opt_json(r) == object_in(text@),
{
    let t = chars_of(text);
    let brace = chars_of("{");
    proof {
        reveal_strlit("{");
        lemma_find_from(text@, "{"@, 0);
    }
    let b = match find_chars(&t, &brace, 0) {
        Some(i) => i,
        None => return None,
    };
    let s = skip_chars(&t, b);
    proof {
        assert(text@.subrange(b as int, b + 1)[0] == "{"@[0]);
        assert(s@ =~= text@.skip(b as int));
        assert(s@[0] == '{');
    }
    let i = match find_object_end(&s) {
        Some(i) => i,
        None => return None,
    };
    assert(i < s.len());
    let object = text_of(&s, 0, i + 1);
    proof {
        assert(object@ =~= s@.take(i + 1));
    }
    parse_json(object.as_str())
}

/// The call that a text with a key for the name states, given the match of that
/// key.
pub open spec fn flexible_call(
    names: Seq<Seq<Option<Seq<char>>>>,
    inner: Seq<char>,
) -> Search<FoundView> {
    if names.len() == 0 {
        Search::Nothing
    } else {
        match group(names[0], 1) {
            Some(name) => match object_in(inner) {
                Some(args) => Search::Found(FoundView { name, args, tagged: false }),
                None => Search::Found(
                    FoundView { name, args: JsonView::Object(Seq::empty()), tagged: false },
                ),
            },
            None => Search::Nothing,
        }
    }
}

fn parse_flexible_format(inner: &str) -> (r: Search<FoundCall>)
    ensures
        search_view(r) == flexible_call(captured(FLEXIBLE_PATTERN@, inner@), inner@),
{
    let names = captures_of(FLEXIBLE_PATTERN, inner);
    proof {
        assert(all_groups(names@).len() == names@.len());
    }
    if names.len() == 0 {
        return Search::Nothing;
    }
    assert(all_groups(names@)[0] == groups(names@[0]@));
    match group_of(&names[0], 1) {
        Some(name) => match extract_json_object(inner) {
            Some(args) => Search::Found(FoundCall { name: name.clone(), args, tagged: false }),
            None => Search::Found(
                FoundCall { name: name.clone(), args: empty_object(), tagged: false },
            ),
        },
        None => Search::Nothing,
    }
}

/// The call that the text between two markers states: as JSON, else with arrows,
/// else with a key for the name.
pub open spec fn inner_call(inner: Seq<char>) -> Search<FoundView> {
    match json_of_text(inner) {
        Some(json) => match stated_call(json) {
            Some(c) => Search::Found(c),
            None => Search::Nothing,
        },
        None => match arrow_call(captured(ARROW_TOOL_PATTERN@, inner), inner) {
            Search::Nothing => flexible_call(captured(FLEXIBLE_PATTERN@, inner), inner),
            found => found,
        },
    }
}

fn parse_tool_call_inner(inner: &str) -> (r: Search<FoundCall>)
    ensures
        search_view(r) == inner_call(inner@),
{
    if let Some(json) = parse_json(inner) {
        return match parse_from_json(&json) {
            Some(c) => Search::Found(c),
            None => Search::Nothing,
        };
    }
    match parse_arrow_syntax(inner) {
        Search::Nothing => parse_flexible_format(inner),
        found => found,
    }
}

/// The call in tags around a block, else the call that the block states.
pub open spec fn tagged_call(inner: Seq<char>) -> Search<FoundView> {
    match invoked(captured(INVOKE_PATTERN@, inner)) {
        Some(c) => Search::Found(c),
        None => inner_call(inner),
    }
}

fn parse_tagged_call(inner: &str) -> (r: Search<FoundCall>)
    ensures
        search_view(r) == tagged_call(inner@),
{
    match parse_invoke_block(inner) {
        Some(c) => Search::Found(c),
        None => parse_tool_call_inner(inner),
    }
}

/// The calls so far with one more, numbered from one.
pub open spec fn with_call(calls: Seq<ParsedView>, found: FoundView) -> Seq<ParsedView> {
    let prefix = if found.tagged {
        "xml_tool_"@
    } else {
        "text_tool_"@
    };
    calls.push(
        ParsedView {
            name: found.name,
            args: found.args,
            id: prefix + decimal((calls.len() + 1) as nat),
        },
    )
}

fn add_call(calls: &mut Vec<ParsedToolCall>, found: FoundCall)
    ensures
        call_views(final(calls)@) == with_call(call_views(old(calls)@), found@),
{
    let ghost before = call_views(calls@);
    let mut id = if found.tagged {
        "xml_tool_".to_owned()
    } else {
        "text_tool_".to_owned()
    };
    let number: u128 = calls.len() as u128 + 1;
    assert(before.len() == calls@.len());
    push_count(&mut id, number);
    calls.push(ParsedToolCall { name: found.name, args: found.args, id });
    proof {
        assert(call_views(calls@) =~= with_call(before, found@));
    }
}

fn push_count(out: &mut String, n: u128)
    ensures
        final(out)@ == old(out)@ + decimal(n as nat),
    decreases n,
{
    let ghost before = out@;
    if n >= 10 {
        push_count(out, n / 10);
    }
    let d: u64 = (n % 10) as u64;
    push_decimal(out, d);
    proof {
        if n >= 10 {
            assert(before + decimal((n / 10) as nat).push(crate::text::digit((n % 10) as nat))
                =~= (before + decimal((n / 10) as nat)) + decimal((n % 10) as nat));
        }
    }
}

/// What is left of a text, and the calls found in it, after a match was worked
/// off: a call is added where there is one, and the match is taken out.
pub open spec fn worked_off(
    state: ParseView,
    found: Search<FoundView>,
    whole: Seq<char>,
) -> Option<ParseView> {
    match found {
        Search::Broken => None,
        Search::Found(c) => Some(
            ParseView { clean: without_all(state.clean, whole), calls: with_call(state.calls, c) },
        ),
        Search::Nothing => Some(
            ParseView { clean: without_all(state.clean, whole), calls: state.calls },
        ),
    }
}

/// Works a match off; false where its call cannot be read.
pub fn work_off(state: &mut ParseResult, found: Search<FoundCall>, whole: &str) -> (r: bool)
    ensures
        match worked_off(old(state)@, search_view(found), whole@) {
            Some(after) => r && final(state)@ == after,
            None => !r,
        },
{
    match found {
        Search::Broken => return false,
        Search::Found(c) => add_call(&mut state.tool_calls, c),
        Search::Nothing => {},
    }
    state.clean_text = remove_all(state.clean_text.as_str(), whole);
    true
}

/// The state after the first `n` matches of the markers in square brackets
/// (`tags` is false) or of the tags around a call.
pub open spec fn after_blocks(
    start: ParseView,
    list: Seq<Seq<Option<Seq<char>>>>,
    n: nat,
    tags: bool,
) -> Option<ParseView>
    decreases n,
{
    if n == 0 {
        Some(start)
    } else {
        match after_blocks(start, list, (n - 1) as nat, tags) {
            None => None,
            Some(state) => match (group(list[n - 1], 0), group(list[n - 1], 1)) {
                (Some(whole), Some(inner)) => worked_off(
                    state,
                    if tags {
                        tagged_call(trimmed(inner))
                    } else {
                        inner_call(trimmed(inner))
                    },
                    whole,
                ),
                _ => Some(state),
            },
        }
    }
}

fn work_blocks(state: &mut ParseResult, list: &Vec<Vec<Option<String>>>, tags: bool) -> (r: bool)
    ensures
        match after_blocks(old(state)@, all_groups(list@), list@.len(), tags) {
            Some(after) => r && final(state)@ == after,
            None => !r,
        },
{
    let ghost start = state@;
    let ghost all = all_groups(list@);
    let mut i: usize = 0;
    while i < list.len()
        invariant
            i <= list@.len(),
            all == all_groups(list@),
            after_blocks(start, all, i as nat, tags) == Some(state@),
            start == old(state)@,
        decreases list@.len() - i,
    {
        assert(all[i as int] == groups(list@[i as int]@));
        let ghost before = state@;
        if let Some(whole) = group_of(&list[i], 0) {
            if let Some(inner) = group_of(&list[i], 1) {
                let text = trim(inner.as_str());
                let found = if tags {
                    parse_tagged_call(text.as_str())
                } else {
                    parse_tool_call_inner(text.as_str())
                };
                if !work_off(state, found, whole.as_str()) {
                    proof {
                        assert(after_blocks(start, all, (i + 1) as nat, tags) is None);
                        lemma_stays_broken(start, all, (i + 1) as nat, all.len(), tags);
                    }
                    return false;
                }
            }
        }
        i += 1;
    }
    true
}

proof fn lemma_stays_broken(
    start: ParseView,
    list: Seq<Seq<Option<Seq<char>>>>,
    i: nat,
    n: nat,
    tags: bool,
)
    requires
        i <= n,
        after_blocks(start, list, i, tags) is None,
    ensures
        after_blocks(start, list, n, tags) is None,
    decreases n - i,
{
    if i < n {
        lemma_stays_broken(start, list, i, (n - 1) as nat, tags);
    }
}

/// The state after the first `n` calls in tags that stand alone.
pub open spec fn after_invokes(
    start: ParseView,
    list: Seq<Seq<Option<Seq<char>>>>,
    n: nat,
) -> ParseView
    decreases n,
{
    if n == 0 {
        start
    } else {
        let state = after_invokes(start, list, (n - 1) as nat);
        match (group(list[n - 1], 0), group(list[n - 1], 1), group(list[n - 1], 2)) {
            (Some(whole), Some(name), Some(inner)) => ParseView {
                clean: without_all(state.clean, whole),
                calls: with_call(
                    state.calls,
                    FoundView { name, args: tagged_arguments(inner), tagged: true },
                ),
            },
            _ => state,
        }
    }
}

fn work_invokes(state: &mut ParseResult, list: &Vec<Vec<Option<String>>>)
    ensures
        final(state)@ == after_invokes(old(state)@, all_groups(list@), list@.len()),
{
    let ghost start = state@;
    let ghost all = all_groups(list@);
    let mut i: usize = 0;
    while i < list.len()
        invariant
            i <= list@.len(),
            all == all_groups(list@),
            after_invokes(start, all, i as nat) == state@,
        decreases list@.len() - i,
    {
        assert(all[i as int] == groups(list@[i as int]@));
        if let Some(whole) = group_of(&list[i], 0) {
            if let Some(name) = group_of(&list[i], 1) {
                if let Some(inner) = group_of(&list[i], 2) {
                    let args = parse_xml_parameters(inner.as_str());
                    add_call(
                        &mut state.tool_calls,
                        FoundCall { name: name.clone(), args, tagged: true },
                    );
                    state.clean_text = remove_all(state.clean_text.as_str(), whole.as_str());
                }
            }
        }
        i += 1;
    }
}

/// A text without blank lines and without blanks at its ends.
pub open spec fn tidied(text: Seq<char>) -> Seq<char> {
    trimmed(
        joined(lines_of(text).filter(|line: Seq<char>| trimmed(line).len() > 0), "\n"@),
    )
}

/// A text without blank lines and without blanks at its ends.
pub fn tidy(text: &str) -> (r: String)
    ensures
        r@ == tidied(text@),
{
    let lines = split_lines(text);
    let ghost all = texts(lines@);
    let ghost keep = |line: Seq<char>| trimmed(line).len() > 0;
    let mut kept: Vec<String> = Vec::new();
    let mut i: usize = 0;
    proof {
        reveal(Seq::filter);
        assert(all.take(0) =~= Seq::empty());
        assert(texts(kept@) =~= all.take(0).filter(keep));
    }
    while i < lines.len()
        invariant
            i <= lines@.len(),
            all == texts(lines@),
            keep == (|line: Seq<char>| trimmed(line).len() > 0),
            texts(kept@) == all.take(i as int).filter(keep),
        decreases lines@.len() - i,
    {
        proof {
            reveal(Seq::filter);
            assert(all.take(i + 1).drop_last() =~= all.take(i as int));
            assert(all.take(i + 1).last() == lines@[i as int]@);
        }
        let bare = trim(lines[i].as_str());
        if !bare.as_str().is_empty() {
            push_line(&mut kept, lines[i].clone());
        }
        i += 1;
    }
    proof {
        assert(all.take(all.len() as int) =~= all);
    }
    let text = join(&kept, "\n");
    trim(text.as_str())
}

/// A text without its tool calls, and the calls: first those between markers,
/// then those between tags, then those in tags alone. Nothing where a call
/// cannot be read.
pub open spec fn parsed_calls(text: Seq<char>) -> Option<ParseView> {
    let start = ParseView { clean: erased(THINKING_PATTERN@, text), calls: Seq::empty() };
    let marked = captured(TOOL_CALL_PATTERN@, text);
    match after_blocks(start, marked, marked.len(), false) {
        None => None,
        Some(first) => {
            let tagged = captured(XML_TOOL_CALL_PATTERN@, text);
            match after_blocks(first, tagged, tagged.len(), true) {
                None => None,
                Some(second) => {
                    let alone = captured(INVOKE_PATTERN@, second.clean);
                    let third = after_invokes(second, alone, alone.len());
                    Some(
                        ParseView {
                            clean: tidied(erased(FAKE_TOOL_WRAPPER_PATTERN@, third.clean)),
                            calls: third.calls,
                        },
                    )
                },
            }
        },
    }
}

/// A text without its tool calls, and the calls; nothing where a call cannot be
/// read.
pub fn try_parse_tool_calls(text: &str) -> (r: Option<ParseResult>)
    ensures
        match r {
            Some(p) => parsed_calls(text@) == Some(p@),
            None => parsed_calls(text@) is None,
        },
{
    let mut state = ParseResult {
        clean_text: erase_matches(THINKING_PATTERN, text),
        tool_calls: Vec::new(),
    };
    proof {
        assert(call_views(state.tool_calls@) =~= Seq::empty());
    }
    let marked = captures_of(TOOL_CALL_PATTERN, text);
    assert(all_groups(marked@).len() == marked@.len());
    if !work_blocks(&mut state, &marked, false) {
        return None;
    }
    let tagged = captures_of(XML_TOOL_CALL_PATTERN, text);
    assert(all_groups(tagged@).len() == tagged@.len());
    if !work_blocks(&mut state, &tagged, true) {
        return None;
    }
    let alone = captures_of(INVOKE_PATTERN, state.clean_text.as_str());
    assert(all_groups(alone@).len() == alone@.len());
    work_invokes(&mut state, &alone);
    let bare = erase_matches(FAKE_TOOL_WRAPPER_PATTERN, state.clean_text.as_str());
    state.clean_text = tidy(bare.as_str());
    Some(state)
}

/// A text without its tool calls, and the calls.
pub fn parse_tool_calls(text: &str) -> (r: ParseResult)
    requires
        parsed_calls(text@) is Some,
    ensures
        parsed_calls(text@) == Some(r@),
{
    match try_parse_tool_calls(text) {
        Some(r) => r,
        None => ParseResult { clean_text: String::new(), tool_calls: Vec::new() },
    }
}

/// A text in which a tool call may stand.
pub open spec fn may_hold_call(text: Seq<char>) -> bool {
    contains_text(text, "[TOOL_CALL]"@) || contains_text(text, "<codewhale:tool_call"@)
        || contains_text(text, "<tool_call"@) || contains_text(text, "<invoke "@) || contains_text(
        text,
        "<function_calls>"@,
    ) || contains_text(text, "<｜DSML｜tool_calls>"@) || contains_text(
        text,
        "<｜DSML｜invoke "@,
    ) || contains_text(text, "<|DSML|tool_calls>"@) || contains_text(text, "<|DSML|invoke "@)
        || contains_text(text, "<|dsml|tool_calls>"@) || contains_text(text, "<|dsml|invoke "@)
        || contains_text(text, "<|tool_calls>"@)
}

/// Whether a tool call may stand in a text.
pub fn has_tool_call_markers(text: &str) -> (r: bool)
    ensures
        r == may_hold_call(text@),
{
    contains(text, "[TOOL_CALL]") || contains(text, "<codewhale:tool_call") || contains(
        text,
        "<tool_call",
    ) || contains(text, "<invoke ") || contains(text, "<function_calls>") || contains(
        text,
        "<｜DSML｜tool_calls>",
    ) || contains(text, "<｜DSML｜invoke ") || contains(text, "<|DSML|tool_calls>") || contains(
        text,
        "<|DSML|invoke ",
    ) || contains(text, "<|dsml|tool_calls>") || contains(text, "<|dsml|invoke ") || contains(
        text,
        "<|tool_calls>",
    )
}

/// The calls of a text are numbered from one, in order.
pub proof fn law_calls_are_numbered(calls: Seq<ParsedView>, found: FoundView)
    ensures
        with_call(calls, found).len() == calls.len() + 1,
        with_call(calls, found).take(calls.len() as int) == calls,
        with_call(calls, found).last().id == (if found.tagged {
            "xml_tool_"@
        } else {
            "text_tool_"@
        }) + decimal(with_call(calls, found).len()),
{
    assert(with_call(calls, found).take(calls.len() as int) =~= calls);
}

/// A text that does not hold what is to be taken out stays as it is.
pub proof fn law_only_matches_go(s: Seq<char>, pat: Seq<char>)
    requires
        !contains_text(s, pat),
    ensures
        without_all(s, pat) == s,
{
    crate::text::lemma_contains_find(s, pat);
    assert(s + Seq::<char>::empty() =~= s);
}

} // verus!
