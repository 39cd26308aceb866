//! What a line of input asks for.
//!
//! A session reads lines. A line ends the session, asks for help, gives a
//! constant its value, or is an expression to evaluate. Which of these it is
//! is decided here; reading the line and acting on it is the caller's part.

use vstd::prelude::*;
use vstd::string::*;
use crate::constants::{is_valid_name, valid_name};
use crate::pattern::{leftmost_match, locate, PatternRejected};
use crate::text::same_text;

verus! {

/// Whether `char::is_whitespace` holds of a character.
pub uninterp spec fn whitespace(c: char) -> bool;

/// `char::is_whitespace`: whether Unicode counts the character as white
/// space. The contract only gives the answer its name.
#[verifier::external_body]
fn is_whitespace(c: char) -> (r: bool)
    ensures
        r == whitespace(c),
{
    c.is_whitespace()
}

/// The text without the whitespace at its start.
pub open spec fn trimmed_start(text: Seq<char>) -> Seq<char>
    decreases text.len(),
{
    if text.len() > 0 && whitespace(text[0]) {
        trimmed_start(text.drop_first())
    } else {
        text
    }
}

/// The text without the whitespace at its end.
pub open spec fn trimmed_end(text: Seq<char>) -> Seq<char>
    decreases text.len(),
{
    if text.len() > 0 && whitespace(text.last()) {
        trimmed_end(text.drop_last())
    } else {
        text
    }
}

/// The text without the whitespace at either end.
pub open spec fn trimmed(text: Seq<char>) -> Seq<char> {
    trimmed_end(trimmed_start(text))
}

/// The text without `prefix` at its start, however often it stands there.
pub open spec fn unprefixed(text: Seq<char>, prefix: Seq<char>) -> Seq<char>
    decreases text.len(),
{
    if prefix.len() > 0 && prefix.is_prefix_of(text) {
        unprefixed(text.skip(prefix.len() as int), prefix)
    } else {
        text
    }
}

/// The index of the first `=` among the first `upto` characters, or `upto`
/// if there is none.
pub open spec fn first_equals(text: Seq<char>, upto: int) -> int
    decreases upto,
{
    if upto <= 0 {
        0
    } else if first_equals(text, upto - 1) < upto - 1 || text[upto - 1] == '=' {
        first_equals(text, upto - 1)
    } else {
        upto
    }
}

/// The word that opens an assignment.
pub open spec fn export_word() -> Seq<char> {
    seq!['e', 'x', 'p', 'o', 'r', 't']
}

/// What a line asks for.
#[derive(Debug, PartialEq, Eq)]
pub enum Command {
    /// End the session.
    Exit,
    /// Show the help text.
    Help,
    /// Evaluate `expression` and let `name` stand for its value.
    Define { name: String, expression: String },
    /// An assignment to a name that cannot name a constant.
    BadName,
    /// Evaluate the line.
    Evaluate,
}

/// A command as the contracts see it.
pub enum CommandView {
    Exit,
    Help,
    Define { name: Seq<char>, expression: Seq<char> },
    BadName,
    Evaluate,
}

impl View for Command {
    type V = CommandView;

    open spec fn view(&self) -> CommandView {
        match self {
            Command::Exit => CommandView::Exit,
            Command::Help => CommandView::Help,
            Command::Define { name, expression } => CommandView::Define {
                name: name@,
                expression: expression@,
            },
            Command::BadName => CommandView::BadName,
            Command::Evaluate => CommandView::Evaluate,
        }
    }
}

/// What a line asks for, given whether it has the shape of an assignment.
///
/// `exit`, with or without whitespace around it, ends the session; `help`,
/// exactly, asks for help. An assignment is cut at its first `=`: the name is
/// what stands before it, without the leading `export` and the whitespace
/// around it; the expression is what stands after it, without the whitespace
/// around it. Every other line is an expression.
pub open spec fn command_of(line: Seq<char>, assignment: bool) -> CommandView {
    let cut = first_equals(line, line.len() as int);
    if trimmed(line) == seq!['e', 'x', 'i', 't'] {
        CommandView::Exit
    } else if line == seq!['h', 'e', 'l', 'p'] {
        CommandView::Help
    } else if assignment && cut < line.len() {
        let name = trimmed(unprefixed(line.take(cut), export_word()));
        if valid_name(name) {
            CommandView::Define { name, expression: trimmed(line.skip(cut + 1)) }
        } else {
            CommandView::BadName
        }
    } else {
        CommandView::Evaluate
    }
}

/// The pattern of an assignment: `export`, a word, `=`, and the rest of the
/// line.
pub open spec fn assignment_pattern() -> Seq<char> {
    r"^export\s+\w+\s*=\s*.*$"@
}

/// `first_equals` is the index of the first `=`, if there is one.
pub proof fn first_equals_is_first(text: Seq<char>, upto: int)
    requires
        0 <= upto <= text.len(),
    ensures
        0 <= first_equals(text, upto) <= upto,
        first_equals(text, upto) < upto ==> text[first_equals(text, upto)] == '=',
        forall|j: int| 0 <= j < first_equals(text, upto) ==> text[j] != '=',
    decreases upto,
{
    if upto > 0 {
        first_equals_is_first(text, upto - 1);
    }
}

/// The text without the whitespace at either end.
pub fn trim(text: &str) -> (r: &str)
    ensures
        r@ == trimmed(text@),
{
    let n = text.unicode_len();
    let mut i: usize = 0;
    assert(text@.skip(0) =~= text@);
    while i < n && is_whitespace(text.get_char(i))
        invariant
            i <= n,
            n == text@.len(),
            trimmed_start(text@) == trimmed_start(text@.skip(i as int)),
        decreases n - i,
    {
        assert(text@.skip(i as int).drop_first() =~= text@.skip(i + 1));
        i = i + 1;
    }
    let ghost tail = text@.skip(i as int);
    assert(trimmed_start(text@) == tail);
    let mut j: usize = n;
    assert(text@.subrange(i as int, n as int) =~= tail);
    while j > i && is_whitespace(text.get_char(j - 1))
        invariant
            i <= j <= n,
            n == text@.len(),
            trimmed_end(tail) == trimmed_end(text@.subrange(i as int, j as int)),
        decreases j,
    {
        assert(text@.subrange(i as int, j as int).drop_last() =~= text@.subrange(
            i as int,
            j - 1,
        ));
        j = j - 1;
    }
    text.substring_char(i, j)
}

/// Whether `text` begins with `prefix`.
pub fn begins_with(text: &str, prefix: &str) -> (r: bool)
    ensures
        r == prefix@.is_prefix_of(text@),
{
    let n = prefix.unicode_len();
    if text.unicode_len() < n {
        return false;
    }
    let mut i: usize = 0;
    while i < n
        invariant
            i <= n,
            n == prefix@.len(),
            n <= text@.len(),
            forall|j: int| 0 <= j < i ==> text@[j] == prefix@[j],
        decreases n - i,
    {
        if text.get_char(i) != prefix.get_char(i) {
            assert(prefix@.is_prefix_of(text@) ==> text@.subrange(0, n as int)[i as int]
                == prefix@[i as int]);
            return false;
        }
        i = i + 1;
    }
    assert(text@.subrange(0, n as int) =~= prefix@);
    true
}

/// The text without `prefix` at its start, however often it stands there.
pub fn strip_prefixes<'a>(text: &'a str, prefix: &str) -> (r: &'a str)
    ensures
        r@ == unprefixed(text@, prefix@),
{
    let n = prefix.unicode_len();
    if n == 0 {
        return text;
    }
    let mut rest = text;
    while begins_with(rest, prefix)
        invariant
            n == prefix@.len(),
            n > 0,
            unprefixed(rest@, prefix@) == unprefixed(text@, prefix@),
        decreases rest@.len(),
    {
        let m = rest.unicode_len();
        let ghost before = rest@;
        rest = rest.substring_char(n, m);
        assert(rest@ =~= before.skip(n as int));
    }
    rest
}

/// What a line asks for, given whether it has the shape of an assignment.
pub fn command(line: &str, assignment: bool) -> (r: Command)
    ensures
        r@ == command_of(line@, assignment),
{
    proof {
        reveal_strlit("exit");
        reveal_strlit("help");
        reveal_strlit("export");
        assert("exit"@ =~= seq!['e', 'x', 'i', 't']);
        assert("help"@ =~= seq!['h', 'e', 'l', 'p']);
        assert("export"@ =~= export_word());
    }
    if same_text(trim(line), "exit") {
        return Command::Exit;
    }
    if same_text(line, "help") {
        return Command::Help;
    }
    if !assignment {
        return Command::Evaluate;
    }
    let n = line.unicode_len();
    let mut cut: usize = 0;
    while cut < n && line.get_char(cut) != '='
        invariant
            cut <= n,
            n == line@.len(),
            first_equals(line@, cut as int) == cut,
        decreases n - cut,
    {
        cut = cut + 1;
    }
    proof {
        first_equals_settles(line@, cut as int, n as int);
    }
    if cut >= n {
        return Command::Evaluate;
    }
    let name = trim(strip_prefixes(line.substring_char(0, cut), "export"));
    let expression = trim(line.substring_char(cut + 1, n));
    if is_valid_name(name) {
        Command::Define { name: String::from_str(name), expression: String::from_str(expression) }
    } else {
        Command::BadName
    }
}

/// Once a `=` is found, or the text has run out, the search is over.
proof fn first_equals_settles(text: Seq<char>, at: int, upto: int)
    requires
        0 <= at <= upto <= text.len(),
        first_equals(text, at) == at,
        at < upto ==> text[at] == '=',
    ensures
        first_equals(text, upto) == at,
    decreases upto - at,
{
    if at < upto {
        first_equals_settles(text, at, upto - 1);
    }
}

/// What a line asks for.
///
/// Whether the line has the shape of an assignment is the regex engine's
/// answer for the assignment pattern; what follows from it is `command_of`.
/// The engine is not asked about `exit` and `help`.
pub fn interpret(line: &str) -> (r: Result<Command, PatternRejected>)
    ensures
        r matches Ok(c) ==> c@ == command_of(
            line@,
            leftmost_match(assignment_pattern(), line@) is Some,
        ),
        trimmed(line@) == seq!['e', 'x', 'i', 't'] || line@ == seq!['h', 'e', 'l', 'p'] ==> r is Ok,
{
    proof {
        reveal_strlit("exit");
        reveal_strlit("help");
        assert("exit"@ =~= seq!['e', 'x', 'i', 't']);
        assert("help"@ =~= seq!['h', 'e', 'l', 'p']);
    }
    if same_text(trim(line), "exit") || same_text(line, "help") {
        return Ok(command(line, false));
    }
    match locate(r"^export\s+\w+\s*=\s*.*$", line) {
        Ok(found) => Ok(command(line, found.is_some())),
        Err(e) => Err(e),
    }
}

} // verus!
