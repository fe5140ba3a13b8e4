//! The options of an invoked slash command, as plain values, and how the
//! handlers read them: the subcommand's name and its typed options.

use vstd::prelude::*;
use crate::text::str_eq;

verus! {

/// The value of a slash-command option.
#[derive(Debug)]
pub enum OptionValue {
    /// A string (also what an autocomplete option carries).
    Str(String),
    /// An integer.
    Int(i64),
    /// A channel id.
    Channel(u64),
    /// A user id.
    User(u64),
    /// A subcommand and its options.
    SubCommand(Vec<CommandOption>),
    /// A subcommand group and its options.
    SubCommandGroup(Vec<CommandOption>),
    /// Any other kind of value (booleans, numbers, roles, attachments...).
    Other,
}

/// A named option of an invoked command.
#[derive(Debug)]
pub struct CommandOption {
    pub name: String,
    pub value: OptionValue,
}

/// The invoked subcommand's name: the first option's name, else empty.
pub open spec fn subcommand_name_spec(options: Seq<CommandOption>) -> Seq<char> {
    if options.len() > 0 {
        options[0].name@
    } else {
        ""@
    }
}

/// The options nested under the invoked subcommand (none when the first
/// option is not a subcommand or group).
pub open spec fn sub_options(options: Seq<CommandOption>) -> Seq<CommandOption> {
    if options.len() > 0 {
        match options[0].value {
            OptionValue::SubCommand(v) => v@,
            OptionValue::SubCommandGroup(v) => v@,
            _ => seq![],
        }
    } else {
        seq![]
    }
}

/// The value of the first option named `name` among `options`.
pub open spec fn find_spec(options: Seq<CommandOption>, name: Seq<char>) -> Option<OptionValue>
    decreases options.len(),
{
    if options.len() == 0 {
        None
    } else if options[0].name@ == name {
        Some(options[0].value)
    } else {
        find_spec(options.drop_first(), name)
    }
}

/// The first option named `name` among `options`.
fn find<'a>(options: &'a Vec<CommandOption>, name: &str) -> (r: Option<&'a OptionValue>)
    ensures
        match find_spec(options@, name@) {
            Some(v) => r matches Some(x) && *x == v,
            None => r is None,
        },
{
    let n = options.len();
    let mut i: usize = 0;
    assert(options@.subrange(0, n as int) =~= options@);
    while i < n
        invariant
            n == options@.len(),
            i <= n,
            find_spec(options@, name@) == find_spec(options@.subrange(i as int, n as int), name@),
        decreases n - i,
    {
        let ghost rest = options@.subrange(i as int, n as int);
        assert(rest[0] == options@[i as int]);
        if str_eq(options[i].name.as_str(), name) {
            return Some(&options[i].value);
        }
        assert(rest.drop_first() =~= options@.subrange(i + 1, n as int));
        i = i + 1;
    }
    None
}

/// The options of the invoked subcommand.
fn subcommand_options(options: &Vec<CommandOption>) -> (r: Option<&Vec<CommandOption>>)
    ensures
        match r {
            Some(v) => v@ == sub_options(options@),
            None => sub_options(options@) == Seq::<CommandOption>::empty(),
        },
{
    if options.len() == 0 {
        return None;
    }
    match &options[0].value {
        OptionValue::SubCommand(v) => Some(v),
        OptionValue::SubCommandGroup(v) => Some(v),
        _ => None,
    }
}

/// The value of the subcommand option named `name`.
pub open spec fn sub_value(options: Seq<CommandOption>, name: Seq<char>) -> Option<OptionValue> {
    find_spec(sub_options(options), name)
}

fn sub_find<'a>(options: &'a Vec<CommandOption>, name: &str) -> (r: Option<&'a OptionValue>)
    ensures
        match sub_value(options@, name@) {
            Some(v) => r matches Some(x) && *x == v,
            None => r is None,
        },
{
    match subcommand_options(options) {
        Some(v) => find(v, name),
        None => None,
    }
}

/// Name of the invoked subcommand, if any (e.g. `status` for `/bot status`).
pub fn subcommand_name(options: &Vec<CommandOption>) -> (r: &str)
    ensures
        r@ == subcommand_name_spec(options@),
{
    if options.len() > 0 {
        options[0].name.as_str()
    } else {
        ""
    }
}

/// A string option of the invoked subcommand.
pub fn sub_option_str<'a>(options: &'a Vec<CommandOption>, name: &str) -> (r: Option<&'a str>)
    ensures
        match sub_value(options@, name@) {
            Some(OptionValue::Str(s)) => r matches Some(x) && x@ == s@,
            _ => r is None,
        },
{
    match sub_find(options, name) {
        Some(OptionValue::Str(s)) => Some(s.as_str()),
        _ => None,
    }
}

/// An integer option of the invoked subcommand.
pub fn sub_option_i64(options: &Vec<CommandOption>, name: &str) -> (r: Option<i64>)
    ensures
        r == match sub_value(options@, name@) {
            Some(OptionValue::Int(v)) => Some(v),
            _ => None,
        },
{
    match sub_find(options, name) {
        Some(OptionValue::Int(v)) => Some(*v),
        _ => None,
    }
}

/// A channel option of the invoked subcommand.
pub fn sub_option_channel(options: &Vec<CommandOption>, name: &str) -> (r: Option<u64>)
    ensures
        r == match sub_value(options@, name@) {
            Some(OptionValue::Channel(v)) => Some(v),
            _ => None,
        },
{
    match sub_find(options, name) {
        Some(OptionValue::Channel(v)) => Some(*v),
        _ => None,
    }
}

/// A user option of the invoked subcommand.
pub fn sub_option_user(options: &Vec<CommandOption>, name: &str) -> (r: Option<u64>)
    ensures
        r == match sub_value(options@, name@) {
            Some(OptionValue::User(v)) => Some(v),
            _ => None,
        },
{
    match sub_find(options, name) {
        Some(OptionValue::User(v)) => Some(*v),
        _ => None,
    }
}

/// A top-level string option (for commands without subcommands).
pub fn option_str<'a>(options: &'a Vec<CommandOption>, name: &str) -> (r: Option<&'a str>)
    ensures
        match find_spec(options@, name@) {
            Some(OptionValue::Str(s)) => r matches Some(x) && x@ == s@,
            _ => r is None,
        },
{
    match find(options, name) {
        Some(OptionValue::Str(s)) => Some(s.as_str()),
        _ => None,
    }
}

/// A top-level channel option (for commands without subcommands).
pub fn option_channel(options: &Vec<CommandOption>, name: &str) -> (r: Option<u64>)
    ensures
        r == match find_spec(options@, name@) {
            Some(OptionValue::Channel(v)) => Some(v),
            _ => None,
        },
{
    match find(options, name) {
        Some(OptionValue::Channel(v)) => Some(*v),
        _ => None,
    }
}

} // verus!
