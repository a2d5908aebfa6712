//! Laws of the classifier: when parsing succeeds, when it fails, and the
//! invariant that no command ever holds two sub-commands with one name.

use vstd::prelude::*;

use crate::model::{
    apply_sub_token, first_separator, first_sub_index, first_sub_index_from, initial_state,
    is_command_token, is_sub_token, run_tokens, spec_parse, CommandModel, ParseState, ParserModel,
    SubCommandModel,
};

verus! {

/// Whether the active-command index, if there is one, points into the tree.
spec fn active_in_range(st: ParseState) -> bool {
    match st.active {
        Some(a) => 0 <= a < st.parser.commands.len(),
        None => true,
    }
}

/// No two sub-commands of `cmd` share a name.
pub open spec fn sub_names_unique(cmd: CommandModel) -> bool {
    forall|p: int, q: int|
        0 <= p < q < cmd.subs.len() ==> cmd.subs[p].name != cmd.subs[q].name
}

/// Every command of the tree has pairwise distinct sub-command names.
pub open spec fn all_sub_names_unique(m: ParserModel) -> bool {
    forall|c: int| 0 <= c < m.commands.len() ==> sub_names_unique(#[trigger] m.commands[c])
}

proof fn lemma_first_sub_index_from_none(subs: Seq<SubCommandModel>, name: Seq<char>, i: int)
    requires
        0 <= i,
        first_sub_index_from(subs, name, i) is None,
    ensures
        forall|p: int| i <= p < subs.len() ==> subs[p].name != name,
    decreases subs.len() - i,
{
    if i < subs.len() {
        lemma_first_sub_index_from_none(subs, name, i + 1);
    }
}

proof fn lemma_first_sub_index_from_some(subs: Seq<SubCommandModel>, name: Seq<char>, i: int, k: int)
    requires
        0 <= i,
        first_sub_index_from(subs, name, i) == Some(k),
    ensures
        i <= k < subs.len(),
        subs[k].name == name,
    decreases subs.len() - i,
{
    if i < subs.len() && subs[i].name != name {
        lemma_first_sub_index_from_some(subs, name, i + 1, k);
    }
}

proof fn lemma_apply_sub_token_unique(cmd: CommandModel, rest: Seq<char>)
    requires
        sub_names_unique(cmd),
    ensures
        sub_names_unique(apply_sub_token(cmd, rest)),
{
    let new = apply_sub_token(cmd, rest);
    match first_separator(rest) {
        Some(j) => {
            let name = rest.take(j);
            match first_sub_index(cmd.subs, name) {
                Some(k) => {
                    lemma_first_sub_index_from_some(cmd.subs, name, 0, k);
                    assert forall|p: int| 0 <= p < new.subs.len() implies #[trigger] new.subs[p].name
                        == cmd.subs[p].name by {}
                },
                None => {
                    lemma_first_sub_index_from_none(cmd.subs, name, 0);
                },
            }
        },
        None => {
            match first_sub_index(cmd.subs, rest) {
                Some(_) => {},
                None => {
                    lemma_first_sub_index_from_none(cmd.subs, rest, 0);
                },
            }
        },
    }
}

proof fn lemma_step_preserves(st: ParseState, t: Seq<char>)
    requires
        active_in_range(st),
        all_sub_names_unique(st.parser),
    ensures
        crate::model::step(st, t) matches Ok(next) ==> active_in_range(next)
            && all_sub_names_unique(next.parser),
{
    if is_sub_token(t) {
        match st.active {
            None => {},
            Some(a) => {
                lemma_apply_sub_token_unique(st.parser.commands[a], t.skip(2));
            },
        }
    } else if is_command_token(t) {
    } else {
    }
}

proof fn lemma_run_preserves(st: ParseState, toks: Seq<Seq<char>>)
    requires
        active_in_range(st),
        all_sub_names_unique(st.parser),
    ensures
        run_tokens(st, toks) matches Ok(fin) ==> all_sub_names_unique(fin.parser),
    decreases toks.len(),
{
    if toks.len() > 0 {
        lemma_step_preserves(st, toks[0]);
        match crate::model::step(st, toks[0]) {
            Ok(next) => {
                lemma_run_preserves(next, toks.skip(1));
            },
            Err(_) => {},
        }
    }
}

/// Sub-command name uniqueness is enforced per command: in any tree that
/// a successful parse returns, no command holds two sub-commands with the
/// same name.
pub proof fn lemma_parse_sub_names_unique(raw: Seq<Seq<char>>)
    requires
        raw.len() >= 1,
    ensures
        spec_parse(raw) matches Ok(m) ==> all_sub_names_unique(m),
{
    lemma_run_preserves(initial_state(raw[0]), raw.skip(1));
}

proof fn lemma_run_total(st: ParseState, toks: Seq<Seq<char>>)
    requires
        forall|i: int|
            0 <= i < toks.len() && is_sub_token(#[trigger] toks[i]) ==> st.active is Some
                || exists|j: int| 0 <= j < i && is_command_token(#[trigger] toks[j]),
    ensures
        run_tokens(st, toks) is Ok,
    decreases toks.len(),
{
    if toks.len() > 0 {
        let t = toks[0];
        let tail = toks.skip(1);
        if is_sub_token(t) {
            assert(st.active is Some);
            let next = crate::model::step(st, t)->Ok_0;
            assert(next.active is Some);
            lemma_run_total(next, tail);
        } else if is_command_token(t) {
            let next = crate::model::step(st, t)->Ok_0;
            assert(next.active is Some);
            lemma_run_total(next, tail);
        } else {
            let next = crate::model::step(st, t)->Ok_0;
            assert(next.active == st.active);
            assert forall|i: int|
                0 <= i < tail.len() && is_sub_token(#[trigger] tail[i]) implies next.active is Some
                || exists|j: int| 0 <= j < i && is_command_token(#[trigger] tail[j]) by {
                assert(tail[i] == toks[i + 1]);
                if !(st.active is Some) {
                    let j = choose|j: int| 0 <= j < i + 1 && is_command_token(#[trigger] toks[j]);
                    assert(j != 0);
                    assert(tail[j - 1] == toks[j]);
                    assert(0 <= j - 1 < i && is_command_token(tail[j - 1]));
                }
            }
            lemma_run_total(next, tail);
        }
    }
}

/// Parsing never fails on an input in which every double-dash token is
/// preceded, anywhere earlier in the sequence, by at least one
/// single-dash token.
pub proof fn lemma_parse_total_when_covered(raw: Seq<Seq<char>>)
    requires
        raw.len() >= 1,
        forall|i: int|
            1 <= i < raw.len() && is_sub_token(#[trigger] raw[i]) ==> exists|j: int|
                1 <= j < i && is_command_token(#[trigger] raw[j]),
    ensures
        spec_parse(raw) is Ok,
{
    let st = initial_state(raw[0]);
    let toks = raw.skip(1);
    assert forall|i: int|
        0 <= i < toks.len() && is_sub_token(#[trigger] toks[i]) implies st.active is Some
        || exists|j: int| 0 <= j < i && is_command_token(#[trigger] toks[j]) by {
        assert(toks[i] == raw[i + 1]);
        let j = choose|j: int| 1 <= j < i + 1 && is_command_token(#[trigger] raw[j]);
        assert(toks[j - 1] == raw[j]);
        assert(0 <= j - 1 < i && is_command_token(toks[j - 1]));
    }
    lemma_run_total(st, toks);
}

proof fn lemma_run_orphan(st: ParseState, toks: Seq<Seq<char>>, i: int)
    requires
        st.active is None,
        0 <= i < toks.len(),
        is_sub_token(toks[i]),
        forall|j: int|
            0 <= j < i ==> !is_command_token(#[trigger] toks[j]) && !is_sub_token(toks[j]),
    ensures
        run_tokens(st, toks) == Err::<ParseState, Seq<char>>(toks[i]),
    decreases i,
{
    if i == 0 {
    } else {
        let t = toks[0];
        assert(!is_command_token(toks[0]) && !is_sub_token(toks[0]));
        let next = crate::model::step(st, t)->Ok_0;
        assert(next.active is None);
        let tail = toks.skip(1);
        assert(tail[i - 1] == toks[i]);
        assert forall|j: int|
            0 <= j < i - 1 implies !is_command_token(#[trigger] tail[j]) && !is_sub_token(
            tail[j],
        ) by {
            assert(tail[j] == toks[j + 1]);
        }
        lemma_run_orphan(next, tail, i - 1);
    }
}

/// An input holding a double-dash token before any single-dash token
/// never parses.
pub proof fn lemma_parse_fails_on_uncommanded_sub(raw: Seq<Seq<char>>, i: int)
    requires
        raw.len() >= 1,
        1 <= i < raw.len(),
        is_sub_token(raw[i]),
        forall|j: int| 1 <= j < i ==> !is_command_token(#[trigger] raw[j]),
    ensures
        spec_parse(raw) is Err,
    decreases i,
{
    if exists|k: int| 1 <= k < i && is_sub_token(#[trigger] raw[k]) {
        let k = choose|k: int| 1 <= k < i && is_sub_token(#[trigger] raw[k]);
        lemma_parse_fails_on_uncommanded_sub(raw, k);
    } else {
        lemma_parse_orphan_fails(raw, i);
    }
}

/// A double-dash token that comes before any single-dash token and after
/// only plain tokens makes the parse fail, and the error carries exactly
/// that token.
pub proof fn lemma_parse_orphan_fails(raw: Seq<Seq<char>>, i: int)
    requires
        raw.len() >= 1,
        1 <= i < raw.len(),
        is_sub_token(raw[i]),
        forall|j: int|
            1 <= j < i ==> !is_command_token(#[trigger] raw[j]) && !is_sub_token(raw[j]),
    ensures
        spec_parse(raw) == Err::<ParserModel, Seq<char>>(raw[i]),
{
    let toks = raw.skip(1);
    assert(toks[i - 1] == raw[i]);
    assert forall|j: int|
        0 <= j < i - 1 implies !is_command_token(#[trigger] toks[j]) && !is_sub_token(toks[j]) by {
        assert(toks[j] == raw[j + 1]);
    }
    lemma_run_orphan(initial_state(raw[0]), toks, i - 1);
}

} // verus!

