//! What the command-line client shows: the lines of an interactive session, the
//! text of state-change notifications and of server responses.
use vstd::prelude::*;
use vstd::string::*;
use crate::cli::{
    build_request, request_for, request_view, shell_split, shell_words, texts, Command, ComponentAction,
    NodeAction, Request,
};
use crate::text::{decimal, push_char, push_decimal, push_signed, signed_decimal};

verus! {

/// Whether `c` is white space as `char::is_whitespace` defines it (the Unicode
/// `White_Space` property).
pub open spec fn is_white(c: char) -> bool {
    let u = c as u32;
    ||| 9 <= u <= 13
    ||| u == 32
    ||| u == 0x85
    ||| u == 0xa0
    ||| u == 0x1680
    ||| 0x2000 <= u <= 0x200a
    ||| u == 0x2028
    ||| u == 0x2029
    ||| u == 0x202f
    ||| u == 0x205f
    ||| u == 0x3000
}

fn white(c: char) -> (r: bool)
    ensures
        r == is_white(c),
{
    let u = c as u32;
    (9 <= u && u <= 13) || u == 32 || u == 0x85 || u == 0xa0 || u == 0x1680 || (0x2000 <= u && u
        <= 0x200a) || u == 0x2028 || u == 0x2029 || u == 0x202f || u == 0x205f || u == 0x3000
}

/// `s` without its leading white space.
pub open spec fn trim_start(s: Seq<char>) -> Seq<char>
    decreases s.len(),
{
    if s.len() > 0 && is_white(s[0]) {
        trim_start(s.drop_first())
    } else {
        s
    }
}

/// `s` without its trailing white space.
pub open spec fn trim_end(s: Seq<char>) -> Seq<char>
    decreases s.len(),
{
    if s.len() > 0 && is_white(s.last()) {
        trim_end(s.drop_last())
    } else {
        s
    }
}

/// `s` without leading and trailing white space, as `str::trim` gives it.
pub open spec fn trimmed(s: Seq<char>) -> Seq<char> {
    trim_end(trim_start(s))
}

/// `str::trim`: the text without leading and trailing white space.
pub fn trim(s: &str) -> (r: String)
    ensures
        r@ == trimmed(s@),
{
    let cs = crate::text::chars_of(s);
    let n = cs.len();
    let mut i: usize = 0;
    assert(s@.subrange(0, n as int) =~= s@);
    while i < n && white(cs[i])
        invariant
            n == cs@.len(),
            cs@ == s@,
            i <= n,
            trim_start(s@) == trim_start(s@.subrange(i as int, n as int)),
        decreases n - i,
    {
        assert(s@.subrange(i as int, n as int).drop_first() =~= s@.subrange(i + 1, n as int));
        i = i + 1;
    }
    let ghost front = s@.subrange(i as int, n as int);
    assert(trim_start(front) == front);
    let mut j: usize = n;
    while j > i && white(cs[j - 1])
        invariant
            n == cs@.len(),
            cs@ == s@,
            i <= j <= n,
            front == s@.subrange(i as int, n as int),
            trim_end(front) == trim_end(s@.subrange(i as int, j as int)),
        decreases j,
    {
        assert(s@.subrange(i as int, j as int).drop_last() =~= s@.subrange(i as int, j - 1));
        j = j - 1;
    }
    let ghost kept = s@.subrange(i as int, j as int);
    assert(trim_end(kept) == kept);
    let mut r = String::new();
    let mut k: usize = i;
    while k < j
        invariant
            n == cs@.len(),
            cs@ == s@,
            i <= k <= j <= n,
            r@ == s@.subrange(i as int, k as int),
        decreases j - k,
    {
        push_char(&mut r, cs[k]);
        assert(s@.subrange(i as int, k + 1) =~= s@.subrange(i as int, k as int).push(cs@[k as int]));
        k = k + 1;
    }
    r
}

/// What the session does with one line that was read.
#[derive(Debug, Clone)]
pub enum SessionStep {
    /// Nothing to do: the line is blank.
    Skip,
    /// The session ends (`quit` or `exit`).
    Quit,
    /// Parse these arguments as a command line of the client.
    Run(Vec<String>),
}

/// The arguments that the session hands to the command-line parser for a line:
/// the program name, `--json` when the session prints JSON, then the words.
pub open spec fn session_args(t: Seq<char>, json: bool) -> Seq<Seq<char>> {
    seq!["wisp"@] + (if json {
        seq!["--json"@]
    } else {
        Seq::empty()
    }) + shell_words(t)
}

/// The step a session line asks for.
pub open spec fn session_step_for(line: Seq<char>, json: bool) -> Option<Seq<Seq<char>>> {
    let t = trimmed(line);
    if t.len() == 0 || t == "quit"@ || t == "exit"@ {
        None
    } else {
        Some(session_args(t, json))
    }
}

/// Reads one line of an interactive session: a blank line is skipped, `quit` and
/// `exit` end the session, anything else is split into command-line arguments.
pub fn session_step(line: &str, json: bool) -> (r: SessionStep)
    ensures
        trimmed(line@).len() == 0 <==> r is Skip,
        r is Quit <==> trimmed(line@).len() > 0 && (trimmed(line@) == "quit"@ || trimmed(line@)
            == "exit"@),
        r matches SessionStep::Run(args) ==> session_step_for(line@, json) == Some(texts(args@)),
        session_step_for(line@, json) is Some ==> r is Run,
{
    let t = trim(line);
    if t.as_str().is_empty() {
        return SessionStep::Skip;
    }
    if t == String::from_str("quit") || t == String::from_str("exit") {
        return SessionStep::Quit;
    }
    let mut args: Vec<String> = Vec::new();
    args.push(String::from_str("wisp"));
    if json {
        args.push(String::from_str("--json"));
    }
    let ghost head = texts(args@);
    let words = shell_split(t.as_str());
    let mut k: usize = 0;
    while k < words.len()
        invariant
            texts(args@) == head + texts(words@).take(k as int),
            k <= words.len(),
        decreases words.len() - k,
    {
        let ghost prev = args@;
        args.push(words[k].clone());
        assert(texts(args@) =~= texts(prev).push(words@[k as int]@));
        assert(texts(words@).take(k + 1) =~= texts(words@).take(k as int).push(words@[k as int]@));
        assert(texts(args@) =~= head + texts(words@).take(k + 1));
        k = k + 1;
    }
    assert(texts(words@).take(words@.len() as int) =~= texts(words@));
    assert(head =~= seq!["wisp"@] + (if json {
        seq!["--json"@]
    } else {
        Seq::empty()
    }));
    SessionStep::Run(args)
}

/// The commands that cannot run inside a session.
pub open spec fn nests(c: Command) -> bool {
    c is Watch || c is Session
}

/// The refusal of a command inside a session: `watch` and `session` do not nest.
pub fn session_refusal(c: &Command) -> (r: Option<String>)
    ensures
        nests(*c) ==> (r matches Some(m) && m@ == "Cannot nest session/watch commands"@),
        !nests(*c) ==> r is None,
{
    match c {
        Command::Watch | Command::Session => Some(String::from_str("Cannot nest session/watch commands")),
        _ => None,
    }
}

/// The request that a session sends for a command, and the number of the last request
/// sent after it: requests are numbered 1, 2, ... in the order they are sent, and a
/// command that builds no request takes no number.
pub fn session_request(command: &Command, last_id: u64) -> (r: (Result<Request, String>, u64))
    requires
        last_id < u64::MAX,
    ensures
        request_view(r.0) == request_for(*command),
        r.1 == (if r.0 is Ok {
            last_id + 1
        } else {
            last_id as int
        }),
{
    let q = build_request(command);
    let next = if q.is_ok() {
        last_id + 1
    } else {
        last_id
    };
    (q, next)
}

/// The text of a present value, or the fallback.
pub open spec fn text_or(v: Option<String>, fallback: Seq<char>) -> Seq<char> {
    match v {
        Some(s) => s@,
        None => fallback,
    }
}

/// The line that `watch` prints for a state change. `kind`, `id` and `new_parent_id`
/// are the notification's fields where they are strings; `params` is its compact JSON.
pub open spec fn notification_text(
    kind: Option<String>,
    id: Option<String>,
    new_parent_id: Option<String>,
    params: Seq<char>,
) -> Seq<char> {
    let k = text_or(kind, "unknown"@);
    let i = text_or(id, "?"@);
    if k == "node.created"@ {
        "[created] "@ + i
    } else if k == "node.edited"@ {
        "[edited] "@ + i
    } else if k == "node.deleted"@ {
        "[deleted] "@ + i
    } else if k == "node.moved"@ {
        "[moved] "@ + i + " -> "@ + text_or(new_parent_id, "?"@)
    } else {
        "["@ + k + "] "@ + params
    }
}

fn text_or_exec(v: &Option<String>, fallback: &str) -> (r: String)
    ensures
        r@ == text_or(*v, fallback@),
{
    match v {
        Some(s) => s.clone(),
        None => String::from_str(fallback),
    }
}

/// The line printed for a state-change notification.
pub fn notification_line(
    kind: &Option<String>,
    id: &Option<String>,
    new_parent_id: &Option<String>,
    params: &str,
) -> (r: String)
    ensures
        r@ == notification_text(*kind, *id, *new_parent_id, params@),
{
    let k = text_or_exec(kind, "unknown");
    let i = text_or_exec(id, "?");
    let mut r: String;
    if k == String::from_str("node.created") {
        r = String::from_str("[created] ");
        r.append(i.as_str());
    } else if k == String::from_str("node.edited") {
        r = String::from_str("[edited] ");
        r.append(i.as_str());
    } else if k == String::from_str("node.deleted") {
        r = String::from_str("[deleted] ");
        r.append(i.as_str());
    } else if k == String::from_str("node.moved") {
        let p = text_or_exec(new_parent_id, "?");
        r = String::from_str("[moved] ");
        r.append(i.as_str());
        r.append(" -> ");
        r.append(p.as_str());
    } else {
        r = String::from_str("[");
        r.append(k.as_str());
        r.append("] ");
        r.append(params);
    }
    r
}

/// What `watch` does with one message from the server.
#[derive(Debug, Clone, Copy, PartialEq, Eq, Structural)]
pub enum WatchAction {
    /// Nothing is printed.
    Ignore,
    /// The notification's parameters are printed as pretty JSON.
    ParamsJson,
    /// The notification's line is printed.
    Line,
    /// The message, a response to another client, is printed as pretty JSON.
    ResponseJson,
}

/// The action for a message. `notification` is the method of the message when it
/// reads as a notification; `response` says whether it reads as a response.
pub open spec fn watch_action_for(notification: Option<Seq<char>>, response: bool, json: bool) -> WatchAction {
    match notification {
        Some(m) => if m == "state.changed"@ {
            if json {
                WatchAction::ParamsJson
            } else {
                WatchAction::Line
            }
        } else {
            WatchAction::Ignore
        },
        None => if json && response {
            WatchAction::ResponseJson
        } else {
            WatchAction::Ignore
        },
    }
}

/// Decides what `watch` prints for a message.
pub fn watch_action(notification: &Option<String>, response: bool, json: bool) -> (r: WatchAction)
    ensures
        r == watch_action_for(crate::model::opt_text(*notification), response, json),
{
    match notification {
        Some(m) => {
            if *m == String::from_str("state.changed") {
                if json {
                    WatchAction::ParamsJson
                } else {
                    WatchAction::Line
                }
            } else {
                WatchAction::Ignore
            }
        },
        None => {
            if json && response {
                WatchAction::ResponseJson
            } else {
                WatchAction::Ignore
            }
        },
    }
}

/// What the client reads of a successful response's result; each field is present
/// when the result holds it with the expected JSON type.
#[derive(Debug, Clone)]
pub struct ReplyFacts {
    pub tree: Option<String>,
    pub path: Option<String>,
    pub bytes: Option<u64>,
    /// The `name` and `description` of each listed component.
    pub components: Option<Vec<(Option<String>, Option<String>)>>,
    /// The created ids, each present when it is a string.
    pub ids: Option<Vec<Option<String>>>,
    pub undo_available: Option<u64>,
    pub redo_available: Option<u64>,
    pub id: Option<String>,
    /// Whether the result holds a `node`.
    pub has_node: bool,
    pub png_base64: Option<String>,
}

/// A response as the client reads it.
#[derive(Debug, Clone)]
pub enum Response {
    Failed { code: i32, message: String },
    Succeeded(ReplyFacts),
}

/// One thing the client prints.
#[derive(Debug, Clone)]
pub enum Line {
    /// A line on standard output.
    Stdout(String),
    /// A line on standard error.
    Stderr(String),
    /// The whole result, as pretty JSON, on standard output.
    ResultJson,
    /// The result's `node`, as pretty JSON, on standard output.
    NodeJson,
}

/// What a printed line holds.
pub enum LineView {
    Stdout(Seq<char>),
    Stderr(Seq<char>),
    ResultJson,
    NodeJson,
}

impl View for Line {
    type V = LineView;

    open spec fn view(&self) -> LineView {
        match self {
            Line::Stdout(s) => LineView::Stdout(s@),
            Line::Stderr(s) => LineView::Stderr(s@),
            Line::ResultJson => LineView::ResultJson,
            Line::NodeJson => LineView::NodeJson,
        }
    }
}

/// What the client does with a response.
#[derive(Debug, Clone)]
pub enum Output {
    /// Print these lines.
    Print(Vec<Line>),
    /// Print the message on standard error and exit with status 1.
    Abort(String),
    /// Fail with this error.
    Fail(String),
    /// Write the image to the file `out`, then print its saved line.
    SavePng { out: String, png: Vec<u8> },
}

/// What an output holds.
pub enum OutputView {
    Print(Seq<LineView>),
    Abort(Seq<char>),
    Fail(Seq<char>),
    SavePng { out: Seq<char>, png: Seq<u8> },
}

impl View for Output {
    type V = OutputView;

    open spec fn view(&self) -> OutputView {
        match self {
            Output::Print(v) => OutputView::Print(v@.map_values(|l: Line| l@)),
            Output::Abort(s) => OutputView::Abort(s@),
            Output::Fail(s) => OutputView::Fail(s@),
            Output::SavePng { out, png } => OutputView::SavePng { out: out@, png: png@ },
        }
    }
}

/// `n` spaces.
pub open spec fn spaces(n: nat) -> Seq<char> {
    Seq::new(n, |i: int| ' ')
}

/// `s` left-aligned in a field of `width` characters.
pub open spec fn padded(s: Seq<char>, width: nat) -> Seq<char> {
    if s.len() < width {
        s + spaces((width - s.len()) as nat)
    } else {
        s
    }
}

/// The line of one listed component: its name in a field of sixteen, then its description.
pub open spec fn component_text(e: (Option<String>, Option<String>)) -> Seq<char> {
    "  "@ + padded(text_or(e.0, "?"@), 16) + " "@ + text_or(e.1, ""@)
}

/// The count of undo and redo levels, as `undo` and `redo` print it.
pub open spec fn history_text(verb: Seq<char>, f: ReplyFacts) -> Seq<char> {
    verb + " (undo: "@ + decimal(crate::model::overlay(f.undo_available, 0u64) as nat) + ", redo: "@
        + decimal(crate::model::overlay(f.redo_available, 0u64) as nat) + ")"@
}

/// The lines for the ids that `components use` created.
pub open spec fn used_lines(name: Seq<char>, ids: Seq<Option<String>>) -> Seq<LineView> {
    seq![LineView::Stdout("Created "@ + name + " ("@ + decimal(ids.len()) + " nodes)"@)] + (if ids.len()
        > 0 && ids[0] is Some {
        seq![LineView::Stdout("  root: "@ + ids[0]->Some_0@)]
    } else {
        Seq::empty()
    })
}

/// One line on standard output when the text is present.
pub open spec fn out_if(v: Option<Seq<char>>) -> Seq<LineView> {
    match v {
        Some(t) => seq![LineView::Stdout(t)],
        None => Seq::empty(),
    }
}

/// What becomes of a screenshot's image data, once decoded (or refused).
pub open spec fn screenshot_output_for(out: Seq<char>, decoded: Result<Seq<u8>, Seq<char>>) -> OutputView {
    match decoded {
        Ok(png) => OutputView::SavePng { out, png },
        Err(e) => OutputView::Fail("Base64 decode error: "@ + e),
    }
}

/// What the client does with a successful result for a command, printing text.
pub open spec fn result_output(c: Command, f: ReplyFacts) -> OutputView {
    match c {
        Command::Tree => OutputView::Print(out_if(crate::model::opt_text(f.tree))),
        Command::Save { .. } => OutputView::Print(
            match f.path {
                Some(p) => seq![LineView::Stdout("Saved to "@ + p@ + " ("@ + decimal(crate::model::overlay(f.bytes, 0u64) as nat) + " bytes)"@)],
                None => Seq::empty(),
            },
        ),
        Command::Load { .. } => OutputView::Print(
            match f.path {
                Some(p) => seq![LineView::Stdout("Loaded from "@ + p@)],
                None => Seq::empty(),
            },
        ),
        Command::Components(ComponentAction::List) => OutputView::Print(
            match f.components {
                Some(v) => v@.map_values(|e: (Option<String>, Option<String>)| LineView::Stdout(component_text(e))),
                None => Seq::empty(),
            },
        ),
        Command::Components(ComponentAction::Use { name, .. }) => OutputView::Print(
            match f.ids {
                Some(ids) => used_lines(name@, ids@),
                None => Seq::empty(),
            },
        ),
        Command::Undo => OutputView::Print(seq![LineView::Stdout(history_text("Undone"@, f))]),
        Command::Redo => OutputView::Print(seq![LineView::Stdout(history_text("Redone"@, f))]),
        Command::Node(NodeAction::Add { .. }) => OutputView::Print(
            match f.id {
                Some(id) => seq![LineView::Stdout("Created node "@ + id@)],
                None => Seq::empty(),
            },
        ),
        Command::Node(NodeAction::Show { .. }) => OutputView::Print(
            if f.has_node {
                seq![LineView::NodeJson]
            } else {
                Seq::empty()
            },
        ),
        Command::Node(NodeAction::Edit { .. }) => OutputView::Print(seq![LineView::Stdout("Node updated"@)]),
        Command::Node(NodeAction::Delete { .. }) => OutputView::Print(seq![LineView::Stdout("Node deleted"@)]),
        Command::Screenshot { out } => match f.png_base64 {
            Some(b) => if b@.len() == 0 {
                OutputView::Abort("Screenshot capture failed (no canvas element?)"@)
            } else {
                screenshot_output_for(out@, base64_decode_result(b@))
            },
            None => OutputView::Print(Seq::empty()),
        },
        Command::Watch => OutputView::Print(Seq::empty()),
        Command::Session => OutputView::Print(Seq::empty()),
    }
}

/// What the client does with a response to a command: a server error is reported on
/// standard error; in JSON mode the result is printed whole; otherwise as text.
pub open spec fn response_output_for(c: Command, json: bool, r: Response) -> OutputView {
    match r {
        Response::Failed { code, message } => OutputView::Print(
            seq![LineView::Stderr("Server error ["@ + signed_decimal(code as int) + "]: "@ + message@)],
        ),
        Response::Succeeded(f) => if json {
            OutputView::Print(seq![LineView::ResultJson])
        } else {
            result_output(c, f)
        },
    }
}

/// The standard base64 decoding of a text: its bytes, or the decoder's error message.
pub uninterp spec fn base64_decode_result(s: Seq<char>) -> Result<Seq<u8>, Seq<char>>;

/// Calls `base64::engine::general_purpose::STANDARD.decode` (base64 with padding, the
/// standard alphabet) and renders a `DecodeError` by its `Display`. Claimed: the result
/// is the named decoding of the argument's text, a function of that text alone.
#[verifier::external_body]
fn decode_base64(s: &str) -> (r: Result<Vec<u8>, String>)
    ensures
        match r {
            Ok(b) => base64_decode_result(s@) == Ok::<Seq<u8>, Seq<char>>(b@),
            Err(e) => base64_decode_result(s@) == Err::<Seq<u8>, Seq<char>>(e@),
        },
{
    match base64::Engine::decode(&base64::engine::general_purpose::STANDARD, s) {
        Ok(b) => Ok(b),
        Err(e) => Err(e.to_string()),
    }
}

/// What becomes of a screenshot once its data is decoded: the image is saved to `out`,
/// or the decoding error is reported.
pub fn screenshot_output(out: &String, decoded: Result<Vec<u8>, String>) -> (r: Output)
    ensures
        r@ == screenshot_output_for(
            out@,
            match decoded {
                Ok(b) => Ok::<Seq<u8>, Seq<char>>(b@),
                Err(e) => Err::<Seq<u8>, Seq<char>>(e@),
            },
        ),
{
    match decoded {
        Ok(png) => Output::SavePng { out: out.clone(), png },
        Err(e) => {
            let mut m = String::from_str("Base64 decode error: ");
            m.append(e.as_str());
            Output::Fail(m)
        },
    }
}

/// The line printed once a screenshot of `n` bytes is saved to `out`.
pub fn screenshot_saved_line(out: &str, n: u64) -> (r: String)
    ensures
        r@ == "Screenshot saved to "@ + out@ + " ("@ + decimal(n as nat) + " bytes)"@,
{
    let mut r = String::from_str("Screenshot saved to ");
    r.append(out);
    r.append(" (");
    push_decimal(&mut r, n);
    r.append(" bytes)");
    r
}

/// One line on standard output.
fn print_one(s: String) -> (r: Output)
    ensures
        r@ == OutputView::Print(seq![LineView::Stdout(s@)]),
{
    let mut v: Vec<Line> = Vec::new();
    v.push(Line::Stdout(s));
    let r = Output::Print(v);
    assert(r@->Print_0 =~= seq![LineView::Stdout(s@)]);
    r
}

/// Nothing printed.
fn print_none() -> (r: Output)
    ensures
        r@ == OutputView::Print(Seq::empty()),
{
    let v: Vec<Line> = Vec::new();
    let r = Output::Print(v);
    assert(r@->Print_0 =~= Seq::<LineView>::empty());
    r
}

fn history_line(verb: &str, f: &ReplyFacts) -> (r: Output)
    ensures
        r@ == OutputView::Print(seq![LineView::Stdout(history_text(verb@, *f))]),
{
    let mut s = String::from_str(verb);
    s.append(" (undo: ");
    push_decimal(&mut s, match f.undo_available { Some(n) => n, None => 0 });
    s.append(", redo: ");
    push_decimal(&mut s, match f.redo_available { Some(n) => n, None => 0 });
    s.append(")");
    print_one(s)
}

fn padded_text(s: &String, width: usize) -> (r: String)
    ensures
        r@ == padded(s@, width as nat),
{
    let mut r = s.clone();
    let n = s.as_str().unicode_len();
    if n < width {
        let mut k: usize = n;
        while k < width
            invariant
                n <= k <= width,
                n == s@.len(),
                r@ == s@ + spaces((k - n) as nat),
            decreases width - k,
        {
            push_char(&mut r, ' ');
            assert(s@ + spaces((k + 1 - n) as nat) =~= (s@ + spaces((k - n) as nat)).push(' '));
            k = k + 1;
        }
    }
    r
}

fn component_lines(v: &Vec<(Option<String>, Option<String>)>) -> (r: Output)
    ensures
        r@ == OutputView::Print(
            v@.map_values(|e: (Option<String>, Option<String>)| LineView::Stdout(component_text(e))),
        ),
{
    let mut lines: Vec<Line> = Vec::new();
    let mut k: usize = 0;
    while k < v.len()
        invariant
            k <= v.len(),
            lines@.map_values(|l: Line| l@) == v@.take(k as int).map_values(
                |e: (Option<String>, Option<String>)| LineView::Stdout(component_text(e)),
            ),
        decreases v.len() - k,
    {
        let name = text_or_exec(&v[k].0, "?");
        let desc = text_or_exec(&v[k].1, "");
        let mut s = String::from_str("  ");
        let p = padded_text(&name, 16);
        s.append(p.as_str());
        s.append(" ");
        s.append(desc.as_str());
        let ghost prev = lines@;
        lines.push(Line::Stdout(s));
        assert(lines@.map_values(|l: Line| l@) =~= prev.map_values(|l: Line| l@).push(
            LineView::Stdout(component_text(v@[k as int])),
        ));
        assert(v@.take(k + 1) =~= v@.take(k as int).push(v@[k as int]));
        assert(v@.take(k + 1).map_values(|e: (Option<String>, Option<String>)| LineView::Stdout(component_text(e)))
            =~= v@.take(k as int).map_values(
            |e: (Option<String>, Option<String>)| LineView::Stdout(component_text(e)),
        ).push(LineView::Stdout(component_text(v@[k as int]))));
        k = k + 1;
    }
    assert(v@.take(v@.len() as int) =~= v@);
    Output::Print(lines)
}

fn used_output(name: &String, ids: &Vec<Option<String>>) -> (r: Output)
    ensures
        r@ == OutputView::Print(used_lines(name@, ids@)),
{
    let mut s = String::from_str("Created ");
    s.append(name.as_str());
    s.append(" (");
    push_decimal(&mut s, ids.len() as u64);
    s.append(" nodes)");
    let mut lines: Vec<Line> = Vec::new();
    lines.push(Line::Stdout(s));
    if ids.len() > 0 {
        if let Some(root) = &ids[0] {
            let mut t = String::from_str("  root: ");
            t.append(root.as_str());
            lines.push(Line::Stdout(t));
        }
    }
    let r = Output::Print(lines);
    assert(r@->Print_0 =~= used_lines(name@, ids@));
    r
}

fn result_output_exec(c: &Command, f: &ReplyFacts) -> (r: Output)
    ensures
        r@ == result_output(*c, *f),
{
    match c {
        Command::Tree => match &f.tree {
            Some(t) => print_one(t.clone()),
            None => print_none(),
        },
        Command::Save { .. } => match &f.path {
            Some(p) => {
                let mut s = String::from_str("Saved to ");
                s.append(p.as_str());
                s.append(" (");
                push_decimal(&mut s, match f.bytes { Some(n) => n, None => 0 });
                s.append(" bytes)");
                print_one(s)
            },
            None => print_none(),
        },
        Command::Load { .. } => match &f.path {
            Some(p) => {
                let mut s = String::from_str("Loaded from ");
                s.append(p.as_str());
                print_one(s)
            },
            None => print_none(),
        },
        Command::Components(ComponentAction::List) => match &f.components {
            Some(v) => component_lines(v),
            None => print_none(),
        },
        Command::Components(ComponentAction::Use { name, .. }) => match &f.ids {
            Some(ids) => used_output(name, ids),
            None => print_none(),
        },
        Command::Undo => history_line("Undone", f),
        Command::Redo => history_line("Redone", f),
        Command::Node(NodeAction::Add { .. }) => match &f.id {
            Some(id) => {
                let mut s = String::from_str("Created node ");
                s.append(id.as_str());
                print_one(s)
            },
            None => print_none(),
        },
        Command::Node(NodeAction::Show { .. }) => {
            if f.has_node {
                let mut v: Vec<Line> = Vec::new();
                v.push(Line::NodeJson);
                let r = Output::Print(v);
                assert(r@->Print_0 =~= seq![LineView::NodeJson]);
                r
            } else {
                print_none()
            }
        },
        Command::Node(NodeAction::Edit { .. }) => print_one(String::from_str("Node updated")),
        Command::Node(NodeAction::Delete { .. }) => print_one(String::from_str("Node deleted")),
        Command::Screenshot { out } => match &f.png_base64 {
            Some(b) => {
                if b.as_str().is_empty() {
                    Output::Abort(String::from_str("Screenshot capture failed (no canvas element?)"))
                } else {
                    screenshot_output(out, decode_base64(b.as_str()))
                }
            },
            None => print_none(),
        },
        Command::Watch | Command::Session => print_none(),
    }
}

/// What the client does with a response to a command: a server error goes to
/// standard error; in JSON mode the result is printed whole; otherwise each command
/// prints its own text, and a screenshot's image data is decoded for saving.
pub fn response_output(c: &Command, json: bool, r: &Response) -> (out: Output)
    ensures
        out@ == response_output_for(*c, json, *r),
{
    match r {
        Response::Failed { code, message } => {
            let mut s = String::from_str("Server error [");
            push_signed(&mut s, *code as i64);
            s.append("]: ");
            s.append(message.as_str());
            let mut v: Vec<Line> = Vec::new();
            v.push(Line::Stderr(s));
            let o = Output::Print(v);
            assert(o@->Print_0 =~= seq![LineView::Stderr("Server error ["@ + signed_decimal(*code as int) + "]: "@ + message@)]);
            o
        },
        Response::Succeeded(f) => {
            if json {
                let mut v: Vec<Line> = Vec::new();
                v.push(Line::ResultJson);
                let o = Output::Print(v);
                assert(o@->Print_0 =~= seq![LineView::ResultJson]);
                o
            } else {
                result_output_exec(c, f)
            }
        },
    }
}

/// A text padded to a field keeps its characters in front and fills the rest of the
/// field with spaces; a text as long as the field or longer is left as it is.
pub proof fn law_padded_fills_field(s: Seq<char>, width: nat)
    ensures
        padded(s, width).len() == (if s.len() < width { width } else { s.len() }),
        padded(s, width).subrange(0, s.len() as int) == s,
        forall|i: int| s.len() <= i < padded(s, width).len() ==> #[trigger] padded(s, width)[i] == ' ',
{
    assert(padded(s, width).subrange(0, s.len() as int) =~= s);
}

} // verus!
