//! The mathematical model of argument parsing: token classification, the
//! shape of the parsed tree, and the left-to-right state machine that a
//! successful parse follows.

use vstd::prelude::*;

verus! {

/// A double-dash token introduces (or extends) a sub-command of the
/// currently active command.
pub open spec fn is_sub_token(t: Seq<char>) -> bool {
    t.len() >= 2 && t[0] == '-' && t[1] == '-'
}

/// A single-dash token (that is not a double-dash token) opens a new command.
pub open spec fn is_command_token(t: Seq<char>) -> bool {
    !is_sub_token(t) && t.len() >= 1 && t[0] == '-'
}

/// The characters at which a double-dash token splits into name and value.
pub open spec fn is_separator(c: char) -> bool {
    c == ':' || c == '='
}

/// Index of the first separator at or after position `i`, if any.
pub open spec fn first_separator_from(s: Seq<char>, i: int) -> Option<int>
    decreases s.len() - i,
{
    if i < 0 || i >= s.len() {
        None
    } else if is_separator(s[i]) {
        Some(i)
    } else {
        first_separator_from(s, i + 1)
    }
}

/// Index of the first `:` or `=` in `s`, if any. A double-dash token is
/// split only once, at this position.
pub open spec fn first_separator(s: Seq<char>) -> Option<int> {
    first_separator_from(s, 0)
}

/// Model of a sub-command: its name and the values attached to it.
#[verifier::ext_equal]
pub struct SubCommandModel {
    pub name: Seq<char>,
    pub args: Seq<Seq<char>>,
}

/// Model of a command: its name, its sub-commands in order of first
/// appearance, and its trailing positional arguments.
#[verifier::ext_equal]
pub struct CommandModel {
    pub name: Seq<char>,
    pub subs: Seq<SubCommandModel>,
    pub args: Seq<Seq<char>>,
}

/// Model of the whole parsed tree: the program path, the commands in
/// order of appearance, and the top-level positional arguments.
#[verifier::ext_equal]
pub struct ParserModel {
    pub path: Seq<char>,
    pub commands: Seq<CommandModel>,
    pub args: Seq<Seq<char>>,
}

/// The transient state of a parse in progress: the tree built so far and
/// the index of the currently active command, if any.
#[verifier::ext_equal]
pub struct ParseState {
    pub parser: ParserModel,
    pub active: Option<int>,
}

/// Index of the first sub-command named `name` at or after position `i`.
pub open spec fn first_sub_index_from(subs: Seq<SubCommandModel>, name: Seq<char>, i: int) -> Option<
    int,
>
    decreases subs.len() - i,
{
    if i < 0 || i >= subs.len() {
        None
    } else if subs[i].name == name {
        Some(i)
    } else {
        first_sub_index_from(subs, name, i + 1)
    }
}

/// Index of the first sub-command named `name`, if any.
pub open spec fn first_sub_index(subs: Seq<SubCommandModel>, name: Seq<char>) -> Option<int> {
    first_sub_index_from(subs, name, 0)
}

/// Index of the first command named `name` at or after position `i`.
pub open spec fn first_command_index_from(
    cmds: Seq<CommandModel>,
    name: Seq<char>,
    i: int,
) -> Option<int>
    decreases cmds.len() - i,
{
    if i < 0 || i >= cmds.len() {
        None
    } else if cmds[i].name == name {
        Some(i)
    } else {
        first_command_index_from(cmds, name, i + 1)
    }
}

/// Index of the first command named `name`, if any.
pub open spec fn first_command_index(cmds: Seq<CommandModel>, name: Seq<char>) -> Option<int> {
    first_command_index_from(cmds, name, 0)
}

/// The effect of a double-dash token on the active command, `rest` being
/// the token with its `--` prefix removed. If the remainder splits at a
/// separator, the value is appended to the sub-command of that name,
/// which is created if absent; without a separator, the whole remainder
/// names a sub-command that is created empty if absent and left alone
/// otherwise.
pub open spec fn apply_sub_token(cmd: CommandModel, rest: Seq<char>) -> CommandModel {
    match first_separator(rest) {
        Some(j) => {
            let name = rest.take(j);
            let value = rest.skip(j + 1);
            match first_sub_index(cmd.subs, name) {
                Some(k) => CommandModel {
                    subs: cmd.subs.update(
                        k,
                        SubCommandModel { name: cmd.subs[k].name, args: cmd.subs[k].args.push(value) },
                    ),
                    ..cmd
                },
                None => CommandModel {
                    subs: cmd.subs.push(SubCommandModel { name: name, args: seq![value] }),
                    ..cmd
                },
            }
        },
        None => match first_sub_index(cmd.subs, rest) {
            Some(_) => cmd,
            None => CommandModel {
                subs: cmd.subs.push(SubCommandModel { name: rest, args: Seq::<Seq<char>>::empty() }),
                ..cmd
            },
        },
    }
}

/// One step of the classifier on token `t`. A double-dash token with no
/// active command is the one failure, carrying the offending token; a
/// single-dash token appends a fresh command and makes it active; a plain
/// token goes to the active command's arguments, or to the top level when
/// no command is active.
pub open spec fn step(st: ParseState, t: Seq<char>) -> Result<ParseState, Seq<char>> {
    if is_sub_token(t) {
        match st.active {
            None => Err(t),
            Some(a) => Ok(
                ParseState {
                    parser: ParserModel {
                        commands: st.parser.commands.update(
                            a,
                            apply_sub_token(st.parser.commands[a], t.skip(2)),
                        ),
                        ..st.parser
                    },
                    active: st.active,
                },
            ),
        }
    } else if is_command_token(t) {
        Ok(
            ParseState {
                parser: ParserModel {
                    commands: st.parser.commands.push(
                        CommandModel {
                            name: t.skip(1),
                            subs: Seq::<SubCommandModel>::empty(),
                            args: Seq::<Seq<char>>::empty(),
                        },
                    ),
                    ..st.parser
                },
                active: Some(st.parser.commands.len() as int),
            },
        )
    } else {
        match st.active {
            Some(a) => Ok(
                ParseState {
                    parser: ParserModel {
                        commands: st.parser.commands.update(
                            a,
                            CommandModel {
                                args: st.parser.commands[a].args.push(t),
                                ..st.parser.commands[a]
                            },
                        ),
                        ..st.parser
                    },
                    active: st.active,
                },
            ),
            None => Ok(
                ParseState {
                    parser: ParserModel { args: st.parser.args.push(t), ..st.parser },
                    active: st.active,
                },
            ),
        }
    }
}

/// Runs the classifier over `toks`, stopping at the first failing step.
pub open spec fn run_tokens(st: ParseState, toks: Seq<Seq<char>>) -> Result<ParseState, Seq<char>>
    decreases toks.len(),
{
    if toks.len() == 0 {
        Ok(st)
    } else {
        match step(st, toks[0]) {
            Ok(next) => run_tokens(next, toks.skip(1)),
            Err(t) => Err(t),
        }
    }
}

/// The state before any token is read: an empty tree holding only the
/// program path, with no command active.
pub open spec fn initial_state(path: Seq<char>) -> ParseState {
    ParseState {
        parser: ParserModel {
            path: path,
            commands: Seq::<CommandModel>::empty(),
            args: Seq::<Seq<char>>::empty(),
        },
        active: None,
    }
}

/// What parsing an argument sequence returns: the first element is the
/// program path and is never classified; the rest run through the state
/// machine. On failure the offending double-dash token is returned.
pub open spec fn spec_parse(raw: Seq<Seq<char>>) -> Result<ParserModel, Seq<char>>
    recommends
        raw.len() >= 1,
{
    match run_tokens(initial_state(raw[0]), raw.skip(1)) {
        Ok(st) => Ok(st.parser),
        Err(t) => Err(t),
    }
}

} // verus!
