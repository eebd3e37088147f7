//! The command parser: turns the full command-line token list (program
//! name first) into exactly one structured command, checking the shapes
//! in a fixed precedence order.

use crate::plan::{Plan, PlanView};
use crate::time::{hm, parse_time};
use vstd::prelude::*;

verus! {

/// The mathematical model of a parsed command.
pub ghost enum CommandView {
    Help,
    Version,
    List,
    Get(Seq<char>),
    Delete(Seq<char>),
    Clear,
    Create(PlanView),
    Invalid,
}

/// The one structured operation a token list denotes. `Get` and `Delete`
/// carry the identifier token as given; the server validates it.
#[derive(Debug, Clone, PartialEq)]
pub enum Command {
    Help,
    Version,
    List,
    Get(String),
    Delete(String),
    Clear,
    Create(Plan),
    Invalid,
}

impl View for Command {
    type V = CommandView;

    open spec fn view(&self) -> CommandView {
        match self {
            Command::Help => CommandView::Help,
            Command::Version => CommandView::Version,
            Command::List => CommandView::List,
            Command::Get(id) => CommandView::Get(id@),
            Command::Delete(id) => CommandView::Delete(id@),
            Command::Clear => CommandView::Clear,
            Command::Create(p) => CommandView::Create(p@),
            Command::Invalid => CommandView::Invalid,
        }
    }
}

/// The plan the creation grammar yields, if any. `a` is the full token
/// list, program name included at index 0, so the grammar's two-argument
/// shape has length 3 here and the three-argument shapes length 4. The
/// literal dot after the time token marks a start-only plan; otherwise a
/// second time token makes the plan ranged, and with a single time token
/// the time is the end.
pub open spec fn create_view(a: Seq<Seq<char>>) -> Option<PlanView> {
    if a.len() == 3 && parse_time(a[1]) is Some {
        Some(PlanView { id: None, title: a[2], from: None, to: parse_time(a[1]) })
    } else if a.len() == 4 && a[2] == "."@ && parse_time(a[1]) is Some {
        Some(PlanView { id: None, title: a[3], from: parse_time(a[1]), to: None })
    } else if a.len() == 4 && a[2] != "."@ && parse_time(a[1]) is Some && parse_time(a[2]) is Some {
        Some(PlanView { id: None, title: a[3], from: parse_time(a[1]), to: parse_time(a[2]) })
    } else {
        None
    }
}

/// The command a token list denotes, checked in precedence order: the
/// flag shapes first, then the creation grammar, and `Invalid` last.
pub open spec fn command_view(a: Seq<Seq<char>>) -> CommandView {
    if a.len() <= 1 || (a.len() == 2 && (a[1] == "--help"@ || a[1] == "-h"@)) {
        CommandView::Help
    } else if a.len() == 2 && (a[1] == "--version"@ || a[1] == "-v"@) {
        CommandView::Version
    } else if a.len() == 2 && (a[1] == "--list"@ || a[1] == "-l"@) {
        CommandView::List
    } else if a.len() == 3 && (a[1] == "--delete"@ || a[1] == "-d"@) {
        CommandView::Delete(a[2])
    } else if a.len() == 3 && (a[1] == "--get"@ || a[1] == "-g"@) {
        CommandView::Get(a[2])
    } else if a.len() == 2 && (a[1] == "--clear"@ || a[1] == "-c"@) {
        CommandView::Clear
    } else {
        match create_view(a) {
            Some(p) => CommandView::Create(p),
            None => CommandView::Invalid,
        }
    }
}

/// Character-for-character string comparison.
fn str_eq(a: &str, b: &str) -> (r: bool)
    ensures
        r == (a@ == b@),
{
    let na = a.unicode_len();
    let nb = b.unicode_len();
    if na != nb {
        return false;
    }
    let mut i: usize = 0;
    while i < na
        invariant
            i <= na,
            na == a@.len(),
            na == b@.len(),
            forall|j: int| 0 <= j < i ==> a@[j] == b@[j],
        decreases na - i,
    {
        if a.get_char(i) != b.get_char(i) {
            return false;
        }
        i = i + 1;
    }
    proof {
        assert(a@ =~= b@);
    }
    true
}

/// The creation grammar on the full token list (program name included).
fn create_from(args: &Vec<String>) -> (r: Option<Plan>)
    ensures
        r.deep_view() == create_view(args.deep_view()),
        r matches Some(p) ==> p@.wf() && p@.id is None,
{
    let ghost a = args.deep_view();
    let n = args.len();
    if n == 3 {
        if let Some(t) = hm(args[1].clone()) {
            return Some(
                Plan { id: None, title: args[2].clone(), from: None, to: Some(t) },
            );
        }
        return None;
    }
    if n == 4 {
        if str_eq(args[2].as_str(), ".") {
            if let Some(f) = hm(args[1].clone()) {
                return Some(
                    Plan { id: None, title: args[3].clone(), from: Some(f), to: None },
                );
            }
            return None;
        }
        if let Some(f) = hm(args[1].clone()) {
            if let Some(t) = hm(args[2].clone()) {
                return Some(
                    Plan { id: None, title: args[3].clone(), from: Some(f), to: Some(t) },
                );
            }
        }
        return None;
    }
    None
}

/// Constructs a `Plan` from the creation grammar's token shapes, the
/// token list taken whole (program name included); any other shape, or a
/// time token that fails to parse, yields `None`.
pub fn parse_args(args: Vec<String>) -> (r: Option<Plan>)
    ensures
        r.deep_view() == create_view(args.deep_view()),
        r matches Some(p) ==> p@.wf() && p@.id is None,
{
    create_from(&args)
}

/// Parses the full command-line token list into exactly one command, in
/// the precedence order `command_view` states. Total: every token list
/// yields a command, `Invalid` at worst.
pub fn parse_command(args: &Vec<String>) -> (r: Command)
    ensures
        r@ == command_view(args.deep_view()),
{
    let n = args.len();
    if n <= 1 {
        return Command::Help;
    }
    if n == 2 {
        if str_eq(args[1].as_str(), "--help") || str_eq(args[1].as_str(), "-h") {
            return Command::Help;
        }
        if str_eq(args[1].as_str(), "--version") || str_eq(args[1].as_str(), "-v") {
            return Command::Version;
        }
        if str_eq(args[1].as_str(), "--list") || str_eq(args[1].as_str(), "-l") {
            return Command::List;
        }
        if str_eq(args[1].as_str(), "--clear") || str_eq(args[1].as_str(), "-c") {
            return Command::Clear;
        }
    }
    if n == 3 {
        if str_eq(args[1].as_str(), "--delete") || str_eq(args[1].as_str(), "-d") {
            return Command::Delete(args[2].clone());
        }
        if str_eq(args[1].as_str(), "--get") || str_eq(args[1].as_str(), "-g") {
            return Command::Get(args[2].clone());
        }
    }
    match create_from(args) {
        Some(p) => Command::Create(p),
        None => Command::Invalid,
    }
}

} // verus!
