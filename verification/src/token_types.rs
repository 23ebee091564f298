//! Semantic-token wire types, the token-type lookup table, and the legend
//! negotiation that fixes which legend index each semantic category maps to.
//!
//! Legend indices 0 to 7 are protocol-guaranteed categories; three extension
//! categories (`parameterType`, `id`, `bool`) are appended either
//! unconditionally or only when the client declares matching custom
//! token-type names, depending on the `negotiate` option.

use vstd::prelude::*;
use crate::text::{chars_of, copy_text, text_eq, texts_view};

verus! {

/// One delta-encoded semantic token, as it goes over the wire.
#[derive(Clone, Copy, Debug, PartialEq, Eq, Structural)]
pub struct SemanticToken {
    pub delta_line: u32,
    pub delta_start: u32,
    pub length: u32,
    pub token_type: u32,
    pub token_modifiers_bitset: u32,
}

/// The legend index for each semantic category the tokenizers emit.
#[derive(Clone, Copy, Debug, PartialEq, Eq, Structural)]
pub struct TokenTypes {
    pub comment: u32,
    pub number: u32,
    pub string: u32,
    pub pragma_strict: u32,
    pub appendto: u32,
    pub id: u32,
    pub var_scope: u32,
    pub nil: u32,
    pub keyword: u32,
    pub parameter: u32,
    pub method: u32,
    pub parameter_type: u32,
    pub boolean: u32,
    pub operator: u32,
}

/// All categories at index 0; the placeholder table used before negotiation.
pub open spec fn zero_token_types() -> TokenTypes {
    TokenTypes {
        comment: 0,
        number: 0,
        string: 0,
        pragma_strict: 0,
        appendto: 0,
        id: 0,
        var_scope: 0,
        nil: 0,
        keyword: 0,
        parameter: 0,
        method: 0,
        parameter_type: 0,
        boolean: 0,
        operator: 0,
    }
}

impl Default for TokenTypes {
    fn default() -> (r: Self)
        ensures
            r == zero_token_types(),
    {
        TokenTypes {
            comment: 0,
            number: 0,
            string: 0,
            pragma_strict: 0,
            appendto: 0,
            id: 0,
            var_scope: 0,
            nil: 0,
            keyword: 0,
            parameter: 0,
            method: 0,
            parameter_type: 0,
            boolean: 0,
            operator: 0,
        }
    }
}

/// The lookup table over the eight protocol-guaranteed legend entries alone.
pub open spec fn base_token_types() -> TokenTypes {
    TokenTypes {
        comment: 0,
        string: 1,
        number: 2,
        pragma_strict: 3,
        appendto: 3,
        id: 4,
        var_scope: 4,
        nil: 4,
        keyword: 4,
        parameter: 6,
        method: 7,
        parameter_type: 5,
        boolean: 4,
        operator: 0,
    }
}

/// The eight protocol-guaranteed legend entries, in index order.
pub open spec fn base_legend() -> Seq<Seq<char>> {
    seq![
        "comment"@,
        "string"@,
        "number"@,
        "macro"@,
        "keyword"@,
        "type"@,
        "parameter"@,
        "method"@,
    ]
}

/// Appends to `legend` each name of `names` that is one of the three
/// extension categories, pointing the matching lookup-table entry at the
/// index the name lands on. A name the table does not know is passed over; a
/// name that occurs twice is appended twice, the table keeping the later
/// index.
pub open spec fn extend_legend(lut: TokenTypes, legend: Seq<Seq<char>>, names: Seq<Seq<char>>) -> (
    TokenTypes,
    Seq<Seq<char>>,
)
    decreases names.len(),
{
    if names.len() == 0 {
        (lut, legend)
    } else {
        let t = names[0];
        let step = if t == "parameterType"@ {
            (TokenTypes { parameter_type: legend.len() as u32, ..lut }, legend.push(t))
        } else if t == "id"@ {
            (TokenTypes { id: legend.len() as u32, ..lut }, legend.push(t))
        } else if t == "bool"@ {
            (TokenTypes { boolean: legend.len() as u32, ..lut }, legend.push(t))
        } else {
            (lut, legend)
        };
        extend_legend(step.0, step.1, names.drop_first())
    }
}

/// The table and legend that come out when all three extension categories are
/// appended unconditionally.
pub open spec fn full_extension_names() -> Seq<Seq<char>> {
    seq!["parameterType"@, "id"@, "bool"@]
}

/// Settles the token-type lookup table and the legend for one session.
///
/// With `negotiate` false, the three extension categories are appended after
/// the eight guaranteed entries no matter what the client said. With
/// `negotiate` true, only extension names the client's capabilities declare
/// are appended, in the client's order; absent capabilities end the
/// negotiation with no legend at all.
pub fn parse_semantic_tokens_capabilities(
    negotiate: bool,
    client_token_types: &Option<Vec<Vec<char>>>,
) -> (r: Option<(TokenTypes, Vec<Vec<char>>)>)
    ensures
        !negotiate ==> (r matches Some(p) && (p.0, texts_view(p.1@)) == extend_legend(
            base_token_types(),
            base_legend(),
            full_extension_names(),
        )),
        negotiate && client_token_types is None ==> r is None,
        negotiate && (client_token_types matches Some(list)) ==> (r matches Some(p) && (
        p.0,
        texts_view(p.1@),
        ) == extend_legend(base_token_types(), base_legend(), texts_view(client_token_types->Some_0@))),
{
    let mut negotiated: Vec<Vec<char>> = Vec::new();
    negotiated.push(chars_of("comment"));
    negotiated.push(chars_of("string"));
    negotiated.push(chars_of("number"));
    negotiated.push(chars_of("macro"));
    negotiated.push(chars_of("keyword"));
    negotiated.push(chars_of("type"));
    negotiated.push(chars_of("parameter"));
    negotiated.push(chars_of("method"));
    assert(texts_view(negotiated@) =~= base_legend());

    let mut lut = TokenTypes {
        comment: 0,
        string: 1,
        number: 2,
        pragma_strict: 3,
        appendto: 3,
        id: 4,
        var_scope: 4,
        nil: 4,
        keyword: 4,
        parameter: 6,
        method: 7,
        parameter_type: 5,
        boolean: 4,
        operator: 0,
    };

    let name_parameter_type = chars_of("parameterType");
    let name_id = chars_of("id");
    let name_bool = chars_of("bool");

    if negotiate {
        match client_token_types {
            Some(list) => {
                let ghost target = extend_legend(
                    base_token_types(),
                    base_legend(),
                    texts_view(list@),
                );
                assert(texts_view(list@).skip(0) =~= texts_view(list@));
                let mut k: usize = 0;
                while k < list.len()
                    invariant
                        k <= list.len(),
                        extend_legend(lut, texts_view(negotiated@), texts_view(list@).skip(k as int))
                            == target,
                        name_parameter_type@ == "parameterType"@,
                        name_id@ == "id"@,
                        name_bool@ == "bool"@,
                    decreases list.len() - k,
                {
                    let ghost lut0 = lut;
                    let ghost leg0 = texts_view(negotiated@);
                    let ghost names_k = texts_view(list@).skip(k as int);
                    let t = &list[k];
                    assert(names_k[0] == t@);
                    if text_eq(t, &name_parameter_type) {
                        lut.parameter_type = negotiated.len() as u32;
                        negotiated.push(copy_text(t));
                        assert(texts_view(negotiated@) =~= leg0.push(t@));
                    } else if text_eq(t, &name_id) {
                        lut.id = negotiated.len() as u32;
                        negotiated.push(copy_text(t));
                        assert(texts_view(negotiated@) =~= leg0.push(t@));
                    } else if text_eq(t, &name_bool) {
                        lut.boolean = negotiated.len() as u32;
                        negotiated.push(copy_text(t));
                        assert(texts_view(negotiated@) =~= leg0.push(t@));
                    }
                    proof {
                        assert(names_k.drop_first() =~= texts_view(list@).skip(k as int + 1));
                        assert(extend_legend(lut0, leg0, names_k) == extend_legend(
                            lut,
                            texts_view(negotiated@),
                            names_k.drop_first(),
                        ));
                    }
                    k = k + 1;
                }
                Some((lut, negotiated))
            },
            None => None,
        }
    } else {
        lut.parameter_type = negotiated.len() as u32;
        negotiated.push(name_parameter_type);
        lut.id = negotiated.len() as u32;
        negotiated.push(name_id);
        lut.boolean = negotiated.len() as u32;
        negotiated.push(name_bool);
        proof {
            reveal_strlit("parameterType");
            reveal_strlit("id");
            reveal_strlit("bool");
            assert(texts_view(negotiated@) =~= base_legend().push("parameterType"@).push(
                "id"@,
            ).push("bool"@));
            assert(extend_legend(base_token_types(), base_legend(), full_extension_names()) == (
            lut,
            texts_view(negotiated@),
            )) by {
                reveal_with_fuel(extend_legend, 4);
                assert("id"@.len() == 2);
                assert("parameterType"@.len() == 13);
                assert("bool"@.len() == 4);
                assert(full_extension_names().drop_first() =~= seq!["id"@, "bool"@]);
                assert(seq!["id"@, "bool"@].drop_first() =~= seq!["bool"@]);
                assert(seq!["bool"@].drop_first() =~= Seq::<Seq<char>>::empty());
            };
        }
        Some((lut, negotiated))
    }
}

} // verus!
