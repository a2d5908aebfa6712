//! The parsed tree (`Parser`, `Command`, `SubCommand`), its read
//! accessors, and the single-pass classifier `parse` that builds it.

use vstd::prelude::*;

use crate::model::{
    first_command_index, first_command_index_from, first_separator, first_separator_from,
    first_sub_index, first_sub_index_from, initial_state, spec_parse, step,
    run_tokens, CommandModel, ParseState, ParserModel, SubCommandModel,
};

verus! {

/// A double-dash entry under a command: a name and the values attached
/// to it, in order of attachment.
#[derive(Debug, Clone)]
pub struct SubCommand {
    command: String,
    args: Vec<String>,
}

impl View for SubCommand {
    type V = SubCommandModel;

    closed spec fn view(&self) -> SubCommandModel {
        SubCommandModel { name: self.command@, args: self.args.deep_view() }
    }
}

impl DeepView for SubCommand {
    type V = SubCommandModel;

    open spec fn deep_view(&self) -> SubCommandModel {
        self.view()
    }
}

/// A single-dash entry under the parser: a name, its sub-commands in
/// order of first appearance, and its trailing positional arguments.
#[derive(Debug, Clone)]
pub struct Command {
    command: String,
    sub_command: Vec<SubCommand>,
    args: Vec<String>,
}

impl View for Command {
    type V = CommandModel;

    closed spec fn view(&self) -> CommandModel {
        CommandModel {
            name: self.command@,
            subs: self.sub_command.deep_view(),
            args: self.args.deep_view(),
        }
    }
}

impl DeepView for Command {
    type V = CommandModel;

    open spec fn deep_view(&self) -> CommandModel {
        self.view()
    }
}

/// The root of the parsed tree: the program path, the commands in order
/// of appearance, and the top-level positional arguments.
#[derive(Debug)]
pub struct Parser {
    path: String,
    command: Vec<Command>,
    args: Vec<String>,
}

impl View for Parser {
    type V = ParserModel;

    closed spec fn view(&self) -> ParserModel {
        ParserModel {
            path: self.path@,
            commands: self.command.deep_view(),
            args: self.args.deep_view(),
        }
    }
}

impl SubCommand {
    /// A fresh sub-command with no values attached yet.
    pub fn new(command: String) -> (r: SubCommand)
        ensures
            r@.name == command@,
            r@.args == Seq::<Seq<char>>::empty(),
    {
        let args: Vec<String> = Vec::new();
        proof {
            assert(args.deep_view() =~= Seq::<Seq<char>>::empty());
        }
        SubCommand { command, args }
    }

    /// Appends one value.
    pub fn add_arg(&mut self, arg: String)
        ensures
            final(self)@.name == old(self)@.name,
            final(self)@.args == old(self)@.args.push(arg@),
    {
        self.args.push(arg);
        proof {
            assert(self.args.deep_view() =~= old(self).args.deep_view().push(arg@));
        }
    }

    /// The sub-command's name.
    pub fn get_command(&self) -> (r: &str)
        ensures
            r@ == self@.name,
    {
        self.command.as_str()
    }

    /// The values attached to this sub-command, in order.
    pub fn get_args(&self) -> (r: &Vec<String>)
        ensures
            r.deep_view() == self@.args,
    {
        &self.args
    }
}

impl Command {
    /// A fresh command with no sub-commands and no arguments yet.
    pub fn new(command: String) -> (r: Command)
        ensures
            r@.name == command@,
            r@.subs == Seq::<SubCommandModel>::empty(),
            r@.args == Seq::<Seq<char>>::empty(),
    {
        let sub_command: Vec<SubCommand> = Vec::new();
        let args: Vec<String> = Vec::new();
        proof {
            assert(sub_command.deep_view() =~= Seq::<SubCommandModel>::empty());
            assert(args.deep_view() =~= Seq::<Seq<char>>::empty());
        }
        Command { command, sub_command, args }
    }

    /// Appends a sub-command.
    pub fn add_sub_command(&mut self, sub_command: SubCommand)
        ensures
            final(self)@.name == old(self)@.name,
            final(self)@.subs == old(self)@.subs.push(sub_command@),
            final(self)@.args == old(self)@.args,
    {
        self.sub_command.push(sub_command);
        proof {
            assert(self.sub_command.deep_view() =~= old(
                self,
            ).sub_command.deep_view().push(sub_command@));
        }
    }

    /// Appends one positional argument.
    pub fn add_arg(&mut self, arg: String)
        ensures
            final(self)@.name == old(self)@.name,
            final(self)@.subs == old(self)@.subs,
            final(self)@.args == old(self)@.args.push(arg@),
    {
        self.args.push(arg);
        proof {
            assert(self.args.deep_view() =~= old(self).args.deep_view().push(arg@));
            assert(self.sub_command.deep_view() =~= old(self).sub_command.deep_view());
        }
    }

    /// The first sub-command bearing `name`, if any.
    pub fn get_sub_command_by_name(&self, name: String) -> (r: Option<&SubCommand>)
        ensures
            match first_sub_index(self@.subs, name@) {
                Some(i) => r matches Some(sc) && sc@ == self@.subs[i],
                None => r is None,
            },
    {
        match find_sub_index(&self.sub_command, &name) {
            Some(i) => Some(&self.sub_command[i]),
            None => None,
        }
    }

    /// The command's name.
    pub fn get_command(&self) -> (r: &str)
        ensures
            r@ == self@.name,
    {
        self.command.as_str()
    }

    /// The sub-commands, in order of first appearance.
    pub fn get_sub_command(&self) -> (r: &Vec<SubCommand>)
        ensures
            r.deep_view() == self@.subs,
    {
        &self.sub_command
    }

    /// The positional arguments that followed this command, in order.
    pub fn get_args(&self) -> (r: &Vec<String>)
        ensures
            r.deep_view() == self@.args,
    {
        &self.args
    }
}

impl Parser {
    /// An empty tree holding only the program path.
    pub fn new(path: String) -> (r: Parser)
        ensures
            r@ == initial_state(path@).parser,
    {
        let command: Vec<Command> = Vec::new();
        let args: Vec<String> = Vec::new();
        proof {
            assert(command.deep_view() =~= Seq::<CommandModel>::empty());
            assert(args.deep_view() =~= Seq::<Seq<char>>::empty());
        }
        let r = Parser { path, command, args };
        proof {
            assert(r@ =~= initial_state(r.path@).parser);
        }
        r
    }

    /// Appends a command.
    pub fn add_command(&mut self, command: Command)
        ensures
            final(self)@.path == old(self)@.path,
            final(self)@.commands == old(self)@.commands.push(command@),
            final(self)@.args == old(self)@.args,
    {
        self.command.push(command);
        proof {
            assert(self.command.deep_view() =~= old(self).command.deep_view().push(command@));
        }
    }

    /// Appends one top-level positional argument.
    pub fn add_arg(&mut self, arg: String)
        ensures
            final(self)@.path == old(self)@.path,
            final(self)@.commands == old(self)@.commands,
            final(self)@.args == old(self)@.args.push(arg@),
    {
        self.args.push(arg);
        proof {
            assert(self.args.deep_view() =~= old(self).args.deep_view().push(arg@));
            assert(self.command.deep_view() =~= old(self).command.deep_view());
        }
    }

    /// The first command bearing `name`, if any.
    pub fn get_command_by_name(&self, name: String) -> (r: Option<&Command>)
        ensures
            match first_command_index(self@.commands, name@) {
                Some(i) => r matches Some(c) && c@ == self@.commands[i],
                None => r is None,
            },
    {
        let n: usize = self.command.len();
        let mut i: usize = 0;
        while i < n
            invariant
                i <= n,
                n == self.command.len(),
                first_command_index(self@.commands, name@) == first_command_index_from(
                    self@.commands,
                    name@,
                    i as int,
                ),
            decreases n - i,
        {
            let c = &self.command[i];
            if c.command == name {
                return Some(c);
            }
            i += 1;
        }
        None
    }

    /// The invoked program path.
    pub fn get_path(&self) -> (r: &str)
        ensures
            r@ == self@.path,
    {
        self.path.as_str()
    }

    /// The commands, in order of appearance.
    pub fn get_command(&self) -> (r: &Vec<Command>)
        ensures
            r.deep_view() == self@.commands,
    {
        &self.command
    }

    /// The top-level positional arguments, in order.
    pub fn get_args(&self) -> (r: &Vec<String>)
        ensures
            r.deep_view() == self@.args,
    {
        &self.args
    }
}

/// The one way a parse can fail: a double-dash token appeared while no
/// command was active. It carries the offending token.
#[derive(Debug)]
pub enum ParseError {
    OrphanSubCommand(String),
}

impl View for ParseError {
    type V = Seq<char>;

    closed spec fn view(&self) -> Seq<char> {
        match self {
            ParseError::OrphanSubCommand(t) => t@,
        }
    }
}

impl ParseError {
    /// The offending token, for diagnostics.
    pub fn token(&self) -> (r: &str)
        ensures
            r@ == self@,
    {
        match self {
            ParseError::OrphanSubCommand(t) => t.as_str(),
        }
    }
}

/// The active command during a parse, as the spec-level state holds it.
pub open spec fn active_index(a: Option<usize>) -> Option<int> {
    match a {
        Some(i) => Some(i as int),
        None => None,
    }
}

/// Builds the tree from a raw argument sequence. The first element is
/// the program path; the rest are classified left to right exactly as
/// `spec_parse` describes. Fails, with the offending token, only on a
/// double-dash token seen while no command is active.
pub fn parse(raw: &Vec<String>) -> (r: Result<Parser, ParseError>)
    requires
        raw@.len() >= 1,
    ensures
        match spec_parse(raw.deep_view()) {
            Ok(m) => r matches Ok(p) && p@ == m,
            Err(t) => r matches Err(e) && e@ == t,
        },
{
    let ghost all: Seq<Seq<char>> = raw.deep_view();
    let ghost st0: ParseState = initial_state(all[0]);
    let path: String = raw[0].clone();
    let mut parser = Parser::new(path);
    let mut active: Option<usize> = None;
    let n: usize = raw.len();
    let mut i: usize = 1;
    proof {
        assert(ParseState { parser: parser@, active: active_index(active) } =~= st0);
    }
    while i < n
        invariant
            1 <= i <= n,
            n == raw@.len(),
            all == raw.deep_view(),
            st0 == initial_state(all[0]),
            match active {
                Some(ci) => ci < parser.command@.len(),
                None => true,
            },
            run_tokens(st0, all.skip(1)) == run_tokens(
                ParseState { parser: parser@, active: active_index(active) },
                all.skip(i as int),
            ),
        decreases n - i,
    {
        let ghost pre = ParseState { parser: parser@, active: active_index(active) };
        let ghost t: Seq<char> = all[i as int];
        proof {
            assert(all.skip(i as int)[0] == t);
            assert(all.skip(i as int).skip(1) =~= all.skip(i as int + 1));
        }
        let arg: &String = &raw[i];
        let a_str: &str = arg.as_str();
        let alen: usize = a_str.unicode_len();
        let is_sub = alen >= 2 && a_str.get_char(0) == '-' && a_str.get_char(1) == '-';
        if is_sub {
            match active {
                None => {
                    proof {
                        assert(run_tokens(st0, all.skip(1)) == Err::<ParseState, Seq<char>>(t));
                    }
                    return Err(ParseError::OrphanSubCommand(arg.clone()));
                },
                Some(ci) => {
                    let rest: &str = a_str.substring_char(2, alen);
                    proof {
                        assert(rest@ =~= t.skip(2));
                    }
                    let rlen: usize = alen - 2;
                    match find_separator(rest) {
                        Some(j) => {
                            let name: String = String::from_str(rest.substring_char(0, j));
                            let value: String = String::from_str(
                                rest.substring_char(j + 1, rlen),
                            );
                            proof {
                                assert(name@ =~= rest@.take(j as int));
                                assert(value@ =~= rest@.skip(j as int + 1));
                            }
                            let found = find_sub_index(&parser.command[ci].sub_command, &name);
                            match found {
                                Some(si) => {
                                    let cmd = &mut parser.command[ci];
                                    let sub = &mut cmd.sub_command[si];
                                    sub.add_arg(value);
                                },
                                None => {
                                    let mut sc = SubCommand::new(name);
                                    sc.add_arg(value);
                                    let cmd = &mut parser.command[ci];
                                    cmd.add_sub_command(sc);
                                },
                            }
                            proof {
                                assert(parser@.commands =~~= pre.parser.commands.update(
                                    ci as int,
                                    crate::model::apply_sub_token(
                                        pre.parser.commands[ci as int],
                                        t.skip(2),
                                    ),
                                ));
                                assert(ParseState {
                                    parser: parser@,
                                    active: active_index(active),
                                } =~~= step(pre, t)->Ok_0);
                            }
                        },
                        None => {
                            let name: String = String::from_str(rest);
                            let found = find_sub_index(&parser.command[ci].sub_command, &name);
                            match found {
                                Some(_) => {
                                },
                                None => {
                                    let sc = SubCommand::new(name);
                                    let cmd = &mut parser.command[ci];
                                    cmd.add_sub_command(sc);
                                },
                            }
                            proof {
                                assert(parser@.commands =~~= pre.parser.commands.update(
                                    ci as int,
                                    crate::model::apply_sub_token(
                                        pre.parser.commands[ci as int],
                                        t.skip(2),
                                    ),
                                ));
                                assert(ParseState {
                                    parser: parser@,
                                    active: active_index(active),
                                } =~~= step(pre, t)->Ok_0);
                            }
                        },
                    }
                },
            }
        } else {
            let is_cmd = alen >= 1 && a_str.get_char(0) == '-';
            if is_cmd {
                let name: String = String::from_str(a_str.substring_char(1, alen));
                proof {
                    assert(name@ =~= t.skip(1));
                }
                let c = Command::new(name);
                parser.add_command(c);
                active = Some(parser.command.len() - 1);
                proof {
                    assert(ParseState { parser: parser@, active: active_index(active) } =~= step(
                        pre,
                        t,
                    )->Ok_0);
                }
            } else {
                match active {
                    Some(ci) => {
                        let cmd = &mut parser.command[ci];
                        cmd.add_arg(arg.clone());
                        proof {
                            assert(parser@.commands =~~= pre.parser.commands.update(
                                ci as int,
                                CommandModel {
                                    args: pre.parser.commands[ci as int].args.push(t),
                                    ..pre.parser.commands[ci as int]
                                },
                            ));
                        }
                    },
                    None => {
                        parser.add_arg(arg.clone());
                    },
                }
                proof {
                    assert(ParseState { parser: parser@, active: active_index(active) } =~= step(
                        pre,
                        t,
                    )->Ok_0);
                }
            }
        }
        i += 1;
    }
    proof {
        assert(all.skip(n as int) =~= Seq::<Seq<char>>::empty());
        assert(run_tokens(st0, all.skip(1)) == Ok::<ParseState, Seq<char>>(
            ParseState { parser: parser@, active: active_index(active) },
        ));
    }
    Ok(parser)
}

/// Index of the first `:` or `=` in `s`, if any.
fn find_separator(s: &str) -> (r: Option<usize>)
    ensures
        match first_separator(s@) {
            Some(k) => r matches Some(j) && j as int == k && k < s@.len(),
            None => r is None,
        },
{
    let n: usize = s.unicode_len();
    let mut j: usize = 0;
    while j < n
        invariant
            j <= n,
            n == s@.len(),
            first_separator(s@) == first_separator_from(s@, j as int),
        decreases n - j,
    {
        let c = s.get_char(j);
        if c == ':' || c == '=' {
            return Some(j);
        }
        j += 1;
    }
    None
}

/// Index of the first sub-command in `subs` bearing `name`, if any.
fn find_sub_index(subs: &Vec<SubCommand>, name: &String) -> (r: Option<usize>)
    ensures
        match first_sub_index(subs.deep_view(), name@) {
            Some(k) => r matches Some(j) && j as int == k && k < subs.deep_view().len(),
            None => r is None,
        },
{
    let n: usize = subs.len();
    let mut i: usize = 0;
    while i < n
        invariant
            i <= n,
            n == subs.len(),
            first_sub_index(subs.deep_view(), name@) == first_sub_index_from(
                subs.deep_view(),
                name@,
                i as int,
            ),
        decreases n - i,
    {
        let sc = &subs[i];
        if sc.command == *name {
            return Some(i);
        }
        i += 1;
    }
    None
}

} // verus!
