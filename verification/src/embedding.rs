//! Built-in hover documentation: help entries for engine callback functions
//! and for predefined constants, and the query that renders one entry as
//! markdown-ish help text.
//!
//! The constant help comes parsed out of an embedded data file by the
//! surrounding process; the function help for the engine's callbacks is
//! built here.

use vstd::prelude::*;
use crate::doc::QueryableItem;
use crate::signatures::{moniker_text, C4DataType};
use crate::text::{append_text, chars_of, copy_text, text_eq};

verus! {

/// One parameter of a documented function: its name and its value type.
#[derive(Clone, Debug, PartialEq)]
pub struct FnHelpParam {
    pub name: Vec<char>,
    pub data_type: C4DataType,
}

/// The help entry of one function: its parameters and, optionally, a
/// description.
#[derive(Clone, Debug, PartialEq)]
pub struct FnHelp {
    pub params: Vec<FnHelpParam>,
    pub description: Option<Vec<char>>,
}

/// The help entry of one predefined constant.
#[derive(Clone, Debug, PartialEq)]
pub struct ConstantHelp {
    pub data_type: C4DataType,
    pub description: Vec<char>,
    pub value: Option<Vec<char>>,
}

/// A constant help entry together with the identifier it documents, the
/// shape the embedded data file carries.
#[derive(Clone, Debug, PartialEq)]
pub struct ConstantHelpDto {
    pub help: ConstantHelp,
    pub identifier: Vec<char>,
}

/// The rendered form of one parameter: its type's moniker, a space, its
/// name.
pub open spec fn param_text(p: FnHelpParam) -> Seq<char> {
    moniker_text(p.data_type) + " "@ + p.name@
}

/// The rendered parameter list from position `j` on, `", "` in front of
/// every parameter but the first.
pub open spec fn params_text(params: Seq<FnHelpParam>, j: int) -> Seq<char>
    decreases params.len() - j,
    when 0 <= j
{
    if j >= params.len() {
        Seq::empty()
    } else if j == 0 {
        param_text(params[0]) + params_text(params, 1)
    } else {
        ", "@ + param_text(params[j]) + params_text(params, j + 1)
    }
}

/// The rendered help text of a function: a fenced signature line, then the
/// description under a further blank line when there is one.
pub open spec fn fn_help_text(name: Seq<char>, h: FnHelp) -> Seq<char> {
    "```c4script\nfunc "@ + name + "("@ + params_text(h.params@, 0) + ")```\n\n"@ + match h.description {
        Some(d) => "\n\n"@ + d@,
        None => Seq::empty(),
    }
}

/// The rendered help text of a constant: its name, a blank line, its
/// description.
pub open spec fn constant_help_text(name: Seq<char>, h: ConstantHelp) -> Seq<char> {
    name + "\n\n"@ + h.description@
}

impl FnHelp {
    /// Renders this entry's help text for a function name.
    pub fn to_help_text(&self, name: &Vec<char>) -> (r: Vec<char>)
        ensures
            r@ == fn_help_text(name@, *self),
    {
        let mut params: Vec<char> = Vec::new();
        let sep = chars_of(", ");
        let space = chars_of(" ");
        let mut j: usize = 0;
        while j < self.params.len()
            invariant
                j <= self.params.len(),
                sep@ == ", "@,
                space@ == " "@,
                params@ + params_text(self.params@, j as int) == params_text(self.params@, 0),
            decreases self.params.len() - j,
        {
            let ghost before = params@;
            if j > 0 {
                append_text(&mut params, &sep);
            }
            let m = chars_of(self.params[j].data_type.moniker());
            append_text(&mut params, &m);
            append_text(&mut params, &space);
            append_text(&mut params, &self.params[j].name);
            proof {
                if j == 0 {
                    assert(params@ =~= before + param_text(self.params@[j as int]));
                } else {
                    assert(params@ =~= before + (", "@ + param_text(self.params@[j as int])));
                }
                assert(params@ + params_text(self.params@, j as int + 1) =~= params_text(
                    self.params@,
                    0,
                ));
            }
            j = j + 1;
        }
        proof {
            assert(params@ + params_text(self.params@, self.params@.len() as int) =~= params@);
        }
        let mut out = chars_of("```c4script\nfunc ");
        append_text(&mut out, name);
        let open_paren = chars_of("(");
        append_text(&mut out, &open_paren);
        append_text(&mut out, &params);
        let close = chars_of(")```\n\n");
        append_text(&mut out, &close);
        match &self.description {
            Some(d) => {
                let gap = chars_of("\n\n");
                append_text(&mut out, &gap);
                append_text(&mut out, d);
            },
            None => {},
        }
        proof {
            assert(out@ =~= fn_help_text(name@, *self));
        }
        out
    }
}

impl ConstantHelp {
    /// Renders this entry's help text for a constant name.
    pub fn to_help_text(&self, name: &Vec<char>) -> (r: Vec<char>)
        ensures
            r@ == constant_help_text(name@, *self),
    {
        let mut out = copy_text(name);
        let gap = chars_of("\n\n");
        append_text(&mut out, &gap);
        append_text(&mut out, &self.description);
        proof {
            assert(out@ =~= constant_help_text(name@, *self));
        }
        out
    }
}

/// The name-keyed map an ordered function-help list stands for; a later
/// entry shadows an earlier one.
pub open spec fn fn_help_map(s: Seq<(Vec<char>, FnHelp)>) -> Map<Seq<char>, FnHelp>
    decreases s.len(),
{
    if s.len() == 0 {
        Map::empty()
    } else {
        fn_help_map(s.drop_last()).insert(s.last().0@, s.last().1)
    }
}

/// The name-keyed map an ordered constant-help list stands for; a later
/// entry shadows an earlier one.
pub open spec fn cons_help_map(s: Seq<(Vec<char>, ConstantHelp)>) -> Map<Seq<char>, ConstantHelp>
    decreases s.len(),
{
    if s.len() == 0 {
        Map::empty()
    } else {
        cons_help_map(s.drop_last()).insert(s.last().0@, s.last().1)
    }
}

/// The description the engine documents for the player-initialization
/// callback.
pub open spec fn initialize_player_desc() -> Seq<char> {
    "After joining a new player the engine calls the function InitializePlayer in the scenario script for that player. This function is called after the basic player objects as defined in Scenario.txt have been placed, so a preliminary starting position has been selected and the player's crew and starting material and buildings are present."@
}

/// The built-in function help: the player-initialization callback with its
/// description, and the player-removal callback without one, each over one
/// integer parameter `iPlr`.
pub open spec fn builtin_fn_help(s: Seq<(Vec<char>, FnHelp)>) -> bool {
    &&& s.len() == 2
    &&& s[0].0@ == "InitializePlayer"@
    &&& s[0].1.params@.len() == 1
    &&& s[0].1.params@[0].name@ == "iPlr"@
    &&& s[0].1.params@[0].data_type == C4DataType::Int
    &&& s[0].1.description matches Some(d) && d@ == initialize_player_desc()
    &&& s[1].0@ == "RemovePlayer"@
    &&& s[1].1.params@.len() == 1
    &&& s[1].1.params@[0].name@ == "iPlr"@
    &&& s[1].1.params@[0].data_type == C4DataType::Int
    &&& s[1].1.description is None
}

/// The built-in and embedded hover documentation, keyed by name.
#[derive(Clone, Debug, PartialEq)]
pub struct Embedding {
    pub fn_help: Vec<(Vec<char>, FnHelp)>,
    pub cons_help: Vec<(Vec<char>, ConstantHelp)>,
}

impl Embedding {
    /// An embedding over the built-in function help and the given constant
    /// help entries, the latter parsed out of the embedded data file by the
    /// surrounding process.
    pub fn new(constants: Vec<(Vec<char>, ConstantHelp)>) -> (r: Embedding)
        ensures
            builtin_fn_help(r.fn_help@),
            r.cons_help == constants,
    {
        let mut fn_help: Vec<(Vec<char>, FnHelp)> = Vec::new();
        let mut init_params: Vec<FnHelpParam> = Vec::new();
        init_params.push(FnHelpParam { name: chars_of("iPlr"), data_type: C4DataType::Int });
        fn_help.push(
            (
                chars_of("InitializePlayer"),
                FnHelp {
                    params: init_params,
                    description: Some(
                        chars_of(
                            "After joining a new player the engine calls the function InitializePlayer in the scenario script for that player. This function is called after the basic player objects as defined in Scenario.txt have been placed, so a preliminary starting position has been selected and the player's crew and starting material and buildings are present.",
                        ),
                    ),
                },
            ),
        );
        let mut remove_params: Vec<FnHelpParam> = Vec::new();
        remove_params.push(FnHelpParam { name: chars_of("iPlr"), data_type: C4DataType::Int });
        fn_help.push(
            (chars_of("RemovePlayer"), FnHelp { params: remove_params, description: None }),
        );
        Embedding { fn_help, cons_help: constants }
    }

    /// Looks a function name up; the latest entry for it answers.
    fn lookup_fn(&self, name: &Vec<char>) -> (r: Option<&FnHelp>)
        ensures
            match r {
                Some(h) => fn_help_map(self.fn_help@).contains_key(name@) && fn_help_map(
                    self.fn_help@,
                )[name@] == *h,
                None => !fn_help_map(self.fn_help@).contains_key(name@),
            },
    {
        let mut i: usize = self.fn_help.len();
        proof {
            assert(self.fn_help@.take(self.fn_help@.len() as int) =~= self.fn_help@);
        }
        while i > 0
            invariant
                i <= self.fn_help.len(),
                fn_help_map(self.fn_help@.take(i as int)).contains_key(name@) == fn_help_map(
                    self.fn_help@,
                ).contains_key(name@),
                fn_help_map(self.fn_help@.take(i as int)).contains_key(name@) ==> fn_help_map(
                    self.fn_help@.take(i as int),
                )[name@] == fn_help_map(self.fn_help@)[name@],
            decreases i,
        {
            i = i - 1;
            proof {
                assert(self.fn_help@.take(i as int + 1).drop_last() =~= self.fn_help@.take(
                    i as int,
                ));
                assert(self.fn_help@.take(i as int + 1).last() == self.fn_help@[i as int]);
            }
            if text_eq(&self.fn_help[i].0, name) {
                return Some(&self.fn_help[i].1);
            }
        }
        proof {
            assert(self.fn_help@.take(0) =~= Seq::<(Vec<char>, FnHelp)>::empty());
        }
        None
    }

    /// Looks a constant name up; the latest entry for it answers.
    fn lookup_cons(&self, name: &Vec<char>) -> (r: Option<&ConstantHelp>)
        ensures
            match r {
                Some(h) => cons_help_map(self.cons_help@).contains_key(name@) && cons_help_map(
                    self.cons_help@,
                )[name@] == *h,
                None => !cons_help_map(self.cons_help@).contains_key(name@),
            },
    {
        let mut i: usize = self.cons_help.len();
        proof {
            assert(self.cons_help@.take(self.cons_help@.len() as int) =~= self.cons_help@);
        }
        while i > 0
            invariant
                i <= self.cons_help.len(),
                cons_help_map(self.cons_help@.take(i as int)).contains_key(name@) == cons_help_map(
                    self.cons_help@,
                ).contains_key(name@),
                cons_help_map(self.cons_help@.take(i as int)).contains_key(name@)
                    ==> cons_help_map(self.cons_help@.take(i as int))[name@] == cons_help_map(
                    self.cons_help@,
                )[name@],
            decreases i,
        {
            i = i - 1;
            proof {
                assert(self.cons_help@.take(i as int + 1).drop_last() =~= self.cons_help@.take(
                    i as int,
                ));
                assert(self.cons_help@.take(i as int + 1).last() == self.cons_help@[i as int]);
            }
            if text_eq(&self.cons_help[i].0, name) {
                return Some(&self.cons_help[i].1);
            }
        }
        proof {
            assert(self.cons_help@.take(0) =~= Seq::<(Vec<char>, ConstantHelp)>::empty());
        }
        None
    }

    /// The rendered help for a classified item: the matching function entry
    /// for a function reference, the matching constant entry for a constant
    /// reference, and nothing for anything else or for an unknown name.
    pub fn query_signature(&self, query: QueryableItem) -> (r: Option<Vec<char>>)
        ensures
            match query {
                QueryableItem::Function(nm) => match r {
                    Some(v) => fn_help_map(self.fn_help@).contains_key(nm@) && v@ == fn_help_text(
                        nm@,
                        fn_help_map(self.fn_help@)[nm@],
                    ),
                    None => !fn_help_map(self.fn_help@).contains_key(nm@),
                },
                QueryableItem::Constant(nm) => match r {
                    Some(v) => cons_help_map(self.cons_help@).contains_key(nm@) && v@
                        == constant_help_text(nm@, cons_help_map(self.cons_help@)[nm@]),
                    None => !cons_help_map(self.cons_help@).contains_key(nm@),
                },
                QueryableItem::Unused => r is None,
            },
    {
        match query {
            QueryableItem::Function(fn_name) => {
                match self.lookup_fn(&fn_name) {
                    Some(h) => Some(h.to_help_text(&fn_name)),
                    None => None,
                }
            },
            QueryableItem::Constant(cons_name) => {
                match self.lookup_cons(&cons_name) {
                    Some(h) => Some(h.to_help_text(&cons_name)),
                    None => None,
                }
            },
            QueryableItem::Unused => None,
        }
    }
}

} // verus!
