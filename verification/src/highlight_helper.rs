//! Delta encoding of semantic tokens.
//!
//! Tokens are emitted relative to a running cursor: the absolute start
//! position of the previously emitted token. A span on a single line becomes
//! one token; a span over several lines is split into one token per line,
//! the lines before the last carrying a fixed placeholder length (clients
//! clamp token lengths to the actual line), the last carrying the span's end
//! column.
//!
//! [`emit_span`] is the specification of that policy, threading an
//! [`EncState`]. Its `ok` flag marks the policy's domain: emissions must
//! come in non-decreasing document order relative to the cursor, and a
//! span's end must not precede its start. Outside that domain the column
//! arithmetic has no meaning, so the executable emitters require it.

use vstd::prelude::*;
use crate::token_types::{SemanticToken, TokenTypes};
use crate::tree::{Point, SyntaxNode};

verus! {

/// The length stood in for every line but the last of a multi-line token.
pub const MULTILINE_PLACEHOLDER_LEN: u32 = 2000;

/// The running state of one token-collection pass: the tokens emitted so far
/// and the cursor they are encoded against.
pub struct Context {
    pub collection: Vec<SemanticToken>,
    pub last_line: u32,
    pub last_start: u32,
    pub token_types: TokenTypes,
}

impl Context {
    /// An empty collection with the cursor at the document start.
    pub fn new(token_types: TokenTypes) -> (r: Context)
        ensures
            r.collection@ == Seq::<SemanticToken>::empty(),
            r.last_line == 0,
            r.last_start == 0,
            r.token_types == token_types,
    {
        Context { collection: Vec::new(), last_line: 0, last_start: 0, token_types }
    }
}

/// The specification-level image of a [`Context`]: emitted tokens plus the
/// cursor, with a flag that records whether every emission so far lay in the
/// encoding policy's domain.
pub struct EncState {
    pub tokens: Seq<SemanticToken>,
    pub line: u32,
    pub col: u32,
    pub ok: bool,
}

/// The state a context stands for.
pub open spec fn ctx_state(ctx: Context) -> EncState {
    EncState { tokens: ctx.collection@, line: ctx.last_line, col: ctx.last_start, ok: true }
}

/// A token with an empty modifier set.
pub open spec fn mk_token(delta_line: u32, delta_start: u32, length: u32, token_type: u32) -> SemanticToken {
    SemanticToken { delta_line, delta_start, length, token_type, token_modifiers_bitset: 0 }
}

/// A span that the encoding policy accepts at cursor `(line, col)`: it fits
/// the position type, starts at or after the cursor, and ends at or after its
/// start.
pub open spec fn span_ok(line: u32, col: u32, srow: int, scol: int, erow: int, ecol: int) -> bool {
    &&& 0 <= srow <= u32::MAX
    &&& 0 <= scol <= u32::MAX
    &&& 0 <= erow <= u32::MAX
    &&& 0 <= ecol <= u32::MAX
    &&& (srow > line || (srow == line && scol >= col))
    &&& if srow == erow {
        scol <= ecol
    } else {
        srow < erow
    }
}

/// Appends the delta-encoded tokens for one span and advances the cursor:
/// to the span's start for a single-line span, to the start of the span's
/// last line for a multi-line one. A span outside the policy's domain only
/// clears `ok`.
pub open spec fn emit_span(st: EncState, srow: int, scol: int, erow: int, ecol: int, tt: u32) -> EncState {
    if !(st.ok && span_ok(st.line, st.col, srow, scol, erow, ecol)) {
        EncState { ok: false, ..st }
    } else {
        let dl = if srow == st.line {
            0u32
        } else {
            (srow - st.line) as u32
        };
        let ds = if srow == st.line {
            (scol - st.col) as u32
        } else {
            scol as u32
        };
        if srow == erow {
            EncState {
                tokens: st.tokens.push(mk_token(dl, ds, (ecol - scol) as u32, tt)),
                line: srow as u32,
                col: scol as u32,
                ok: true,
            }
        } else {
            let mids = Seq::new(
                (erow - srow - 1) as nat,
                |k: int| mk_token(1, 0, MULTILINE_PLACEHOLDER_LEN, tt),
            );
            EncState {
                tokens: st.tokens.push(mk_token(dl, ds, MULTILINE_PLACEHOLDER_LEN, tt)) + mids
                    + seq![mk_token(1, 0, ecol as u32, tt)],
                line: erow as u32,
                col: 0,
                ok: true,
            }
        }
    }
}

/// Appends the delta-encoded tokens for the span between `start` and `end`.
///
/// The span must lie in the encoding policy's domain at the context's
/// cursor: at or after the cursor, end at or after start.
pub fn add_semantic_token_at(ctx: &mut Context, token_type: u32, start: Point, end: Point)
    requires
        span_ok(
            old(ctx).last_line,
            old(ctx).last_start,
            start.row as int,
            start.column as int,
            end.row as int,
            end.column as int,
        ),
    ensures
        ctx_state(*final(ctx)) == emit_span(
            ctx_state(*old(ctx)),
            start.row as int,
            start.column as int,
            end.row as int,
            end.column as int,
            token_type,
        ),
        final(ctx).token_types == old(ctx).token_types,
{
    let ghost st0 = ctx_state(*old(ctx));
    let ghost target = emit_span(
        st0,
        start.row as int,
        start.column as int,
        end.row as int,
        end.column as int,
        token_type,
    );
    let start_row = start.row;
    let start_col = start.column;
    let on_same_line = ctx.last_line == start_row;
    let end_row = end.row;
    let end_col = end.column;

    let delta_line: u32 = if on_same_line {
        0
    } else {
        start_row - ctx.last_line
    };
    let delta_start: u32 = if on_same_line {
        start_col - ctx.last_start
    } else {
        start_col
    };

    if start_row != end_row {
        ctx.collection.push(
            SemanticToken {
                delta_line,
                delta_start,
                length: MULTILINE_PLACEHOLDER_LEN,
                token_type,
                token_modifiers_bitset: 0,
            },
        );
        let ghost base = ctx.collection@;
        let mut row = start_row;
        loop
            invariant_except_break
                start_row < end_row,
                start_row <= row < end_row,
                ctx.collection@ == base + Seq::new(
                    (row - start_row) as nat,
                    |k: int| mk_token(1, 0, MULTILINE_PLACEHOLDER_LEN, token_type),
                ),
                ctx.last_line == old(ctx).last_line,
                ctx.last_start == old(ctx).last_start,
                ctx.token_types == old(ctx).token_types,
            ensures
                row == end_row,
                ctx.collection@ == base + Seq::new(
                    (end_row - start_row - 1) as nat,
                    |k: int| mk_token(1, 0, MULTILINE_PLACEHOLDER_LEN, token_type),
                ),
                ctx.last_line == old(ctx).last_line,
                ctx.last_start == old(ctx).last_start,
                ctx.token_types == old(ctx).token_types,
            decreases end_row - row,
        {
            proof {
                assert(ctx.collection@ + Seq::<SemanticToken>::empty() =~= ctx.collection@);
            }
            let ghost mids_before = Seq::new(
                (row - start_row) as nat,
                |k: int| mk_token(1, 0, MULTILINE_PLACEHOLDER_LEN, token_type),
            );
            row = row + 1;
            if row == end_row {
                break ;
            }
            ctx.collection.push(
                SemanticToken {
                    delta_line: 1,
                    delta_start: 0,
                    length: MULTILINE_PLACEHOLDER_LEN,
                    token_type,
                    token_modifiers_bitset: 0,
                },
            );
            proof {
                assert(Seq::new(
                    (row - start_row) as nat,
                    |k: int| mk_token(1, 0, MULTILINE_PLACEHOLDER_LEN, token_type),
                ) =~= mids_before.push(mk_token(1, 0, MULTILINE_PLACEHOLDER_LEN, token_type)));
                assert(ctx.collection@ =~= base + Seq::new(
                    (row - start_row) as nat,
                    |k: int| mk_token(1, 0, MULTILINE_PLACEHOLDER_LEN, token_type),
                ));
            }
        }
        ctx.collection.push(
            SemanticToken {
                delta_line: 1,
                delta_start: 0,
                length: end_col,
                token_type,
                token_modifiers_bitset: 0,
            },
        );
        ctx.last_line = row;
        ctx.last_start = 0;
        proof {
            assert(ctx.collection@ =~= target.tokens);
        }
    } else {
        if on_same_line {
            ctx.last_start = ctx.last_start + delta_start;
        } else {
            ctx.last_line = start_row;
            ctx.last_start = delta_start;
        }
        ctx.collection.push(
            SemanticToken {
                delta_line,
                delta_start,
                length: end_col - start_col,
                token_type,
                token_modifiers_bitset: 0,
            },
        );
        proof {
            assert(ctx.collection@ =~= target.tokens);
        }
    }
}

/// Appends the delta-encoded tokens for the span of `node`.
pub fn add_semantic_token(ctx: &mut Context, token_type: u32, node: &SyntaxNode)
    requires
        span_ok(
            old(ctx).last_line,
            old(ctx).last_start,
            node.start.row as int,
            node.start.column as int,
            node.end.row as int,
            node.end.column as int,
        ),
    ensures
        ctx_state(*final(ctx)) == emit_span(
            ctx_state(*old(ctx)),
            node.start.row as int,
            node.start.column as int,
            node.end.row as int,
            node.end.column as int,
            token_type,
        ),
        final(ctx).token_types == old(ctx).token_types,
{
    add_semantic_token_at(ctx, token_type, node.start, node.end);
}

/// Lexicographic order on absolute decoded positions.
pub open spec fn pos_le(a: (int, int), b: (int, int)) -> bool {
    a.0 < b.0 || (a.0 == b.0 && a.1 <= b.1)
}

/// The absolute start position of each token of a delta-encoded stream,
/// decoded against the cursor `(line, col)`.
pub open spec fn decoded_starts(tokens: Seq<SemanticToken>, line: int, col: int) -> Seq<(int, int)>
    decreases tokens.len(),
{
    if tokens.len() == 0 {
        Seq::empty()
    } else {
        let t = tokens[0];
        let p = if t.delta_line > 0 {
            (line + t.delta_line, t.delta_start as int)
        } else {
            (line, col + t.delta_start)
        };
        seq![p] + decoded_starts(tokens.drop_first(), p.0, p.1)
    }
}

/// Each position is at or after the one before it.
pub open spec fn positions_non_decreasing(ps: Seq<(int, int)>) -> bool {
    forall|i: int| 0 <= i < ps.len() - 1 ==> pos_le(#[trigger] ps[i], ps[i + 1])
}

/// Summing the `delta_line`/`delta_start` pairs of any delta-encoded token
/// stream in order reconstructs a non-decreasing sequence of absolute start
/// positions: the deltas are unsigned, so decoding can only move forward.
pub proof fn lemma_decoded_starts_monotone(tokens: Seq<SemanticToken>, line: int, col: int)
    ensures
        positions_non_decreasing(decoded_starts(tokens, line, col)),
        tokens.len() > 0 ==> pos_le((line, col), decoded_starts(tokens, line, col)[0]),
    decreases tokens.len(),
{
    if tokens.len() > 0 {
        let t = tokens[0];
        let p = if t.delta_line > 0 {
            (line + t.delta_line, t.delta_start as int)
        } else {
            (line, col + t.delta_start)
        };
        let rest = decoded_starts(tokens.drop_first(), p.0, p.1);
        lemma_decoded_starts_monotone(tokens.drop_first(), p.0, p.1);
        let ps = decoded_starts(tokens, line, col);
        assert(ps == seq![p] + rest);
        assert forall|i: int| 0 <= i < ps.len() - 1 implies pos_le(#[trigger] ps[i], ps[i + 1]) by {
            if i == 0 {
                assert(ps[1] == rest[0]);
            } else {
                assert(ps[i] == rest[i - 1]);
                assert(ps[i + 1] == rest[i]);
            }
        }
    }
}

} // verus!
