//! The definition registry for the configuration format.
//!
//! The registry maps a section name and a property key to the property's
//! value type and its documentation key. It is built once from a
//! pipe-delimited table, one `section|key|valueType|docKey` row per line;
//! a row under the special section name `Player` stands for four rows, one
//! per concrete player section, rather than for itself.

use vstd::prelude::*;
use crate::highlight_helper::{add_semantic_token, add_semantic_token_at, ctx_state, emit_span, Context, EncState};
use crate::token_types::TokenTypes;
use crate::tree::{Point, SyntaxNode};
use crate::text::{
    chars_of,
    copy_range,
    first_sep_before,
    first_sep_from,
    find_before,
    find_from,
    text_eq,
};

verus! {

/// The declared shape of a configuration property's value.
#[derive(Clone, Copy, Debug, PartialEq, Eq, Structural)]
pub enum ValueType {
    Integer,
    DWORD,
    IntegerList,
    IdList,
    MatList,
    Id,
    String,
    Unknown,
}

/// The value type a table cell names; anything outside the vocabulary
/// defaults to `String`.
pub open spec fn parse_value_type(s: Seq<char>) -> ValueType {
    if s == "Integer"@ {
        ValueType::Integer
    } else if s == "DWORD"@ {
        ValueType::DWORD
    } else if s == "IntegerList"@ {
        ValueType::IntegerList
    } else if s == "IdList"@ {
        ValueType::IdList
    } else if s == "MatList"@ {
        ValueType::MatList
    } else if s == "Id"@ {
        ValueType::Id
    } else {
        ValueType::String
    }
}

impl ValueType {
    /// Reads a value type out of its table cell.
    pub fn from_text(s: &Vec<char>) -> (r: ValueType)
        ensures
            r == parse_value_type(s@),
    {
        let n_integer = chars_of("Integer");
        let n_dword = chars_of("DWORD");
        let n_integer_list = chars_of("IntegerList");
        let n_id_list = chars_of("IdList");
        let n_mat_list = chars_of("MatList");
        let n_id = chars_of("Id");
        if text_eq(s, &n_integer) {
            ValueType::Integer
        } else if text_eq(s, &n_dword) {
            ValueType::DWORD
        } else if text_eq(s, &n_integer_list) {
            ValueType::IntegerList
        } else if text_eq(s, &n_id_list) {
            ValueType::IdList
        } else if text_eq(s, &n_mat_list) {
            ValueType::MatList
        } else if text_eq(s, &n_id) {
            ValueType::Id
        } else {
            ValueType::String
        }
    }
}

/// What the registry knows of one property: its value type and the key its
/// documentation is translated under.
#[derive(Clone, Debug, PartialEq)]
pub struct Definition {
    pub value_type: ValueType,
    pub description: Vec<char>,
}

/// One registry row: a section name, a property key, and the definition the
/// pair carries.
#[derive(Clone, Debug, PartialEq)]
pub struct DefRow {
    pub section: Vec<char>,
    pub key: Vec<char>,
    pub definition: Definition,
}

/// The definition registry, in table order; a later row for the same section
/// and key shadows an earlier one.
#[derive(Clone, Debug, PartialEq)]
pub struct DefinitionRegistry {
    pub rows: Vec<DefRow>,
}

/// The mathematical image of one row.
pub open spec fn row_view(r: DefRow) -> ((Seq<char>, Seq<char>), (ValueType, Seq<char>)) {
    ((r.section@, r.key@), (r.definition.value_type, r.definition.description@))
}

/// The mathematical image of a row list.
pub open spec fn rows_view(s: Seq<DefRow>) -> Seq<
    ((Seq<char>, Seq<char>), (ValueType, Seq<char>)),
> {
    Seq::new(s.len(), |i: int| row_view(s[i]))
}

/// The rows from position `j` on, written into `acc` in order: a later row
/// for the same section and key shadows an earlier one.
pub open spec fn defs_map_acc(
    rows: Seq<((Seq<char>, Seq<char>), (ValueType, Seq<char>))>,
    j: int,
    acc: Map<(Seq<char>, Seq<char>), (ValueType, Seq<char>)>,
) -> Map<(Seq<char>, Seq<char>), (ValueType, Seq<char>)>
    decreases rows.len() - j,
    when 0 <= j
{
    if j >= rows.len() {
        acc
    } else {
        defs_map_acc(rows, j + 1, acc.insert(rows[j].0, rows[j].1))
    }
}

/// The map a row list stands for.
pub open spec fn defs_map(rows: Seq<((Seq<char>, Seq<char>), (ValueType, Seq<char>))>) -> Map<
    (Seq<char>, Seq<char>),
    (ValueType, Seq<char>),
> {
    defs_map_acc(rows, 0, Map::empty())
}

/// Rows that never carry `k` leave `k`'s entry as the accumulator has it.
proof fn lemma_defs_map_acc_no_match(
    rows: Seq<((Seq<char>, Seq<char>), (ValueType, Seq<char>))>,
    j: int,
    acc: Map<(Seq<char>, Seq<char>), (ValueType, Seq<char>)>,
    k: (Seq<char>, Seq<char>),
)
    requires
        0 <= j,
        forall|m: int| j <= m < rows.len() ==> (#[trigger] rows[m]).0 != k,
    ensures
        defs_map_acc(rows, j, acc).contains_key(k) == acc.contains_key(k),
        acc.contains_key(k) ==> defs_map_acc(rows, j, acc)[k] == acc[k],
    decreases rows.len() - j,
{
    if j < rows.len() {
        lemma_defs_map_acc_no_match(rows, j + 1, acc.insert(rows[j].0, rows[j].1), k);
    }
}

/// When row `i` carries `k` and no later row does, the map answers row `i`.
proof fn lemma_defs_map_acc_last_match(
    rows: Seq<((Seq<char>, Seq<char>), (ValueType, Seq<char>))>,
    j: int,
    i: int,
    acc: Map<(Seq<char>, Seq<char>), (ValueType, Seq<char>)>,
    k: (Seq<char>, Seq<char>),
)
    requires
        0 <= j <= i < rows.len(),
        rows[i].0 == k,
        forall|m: int| i < m < rows.len() ==> (#[trigger] rows[m]).0 != k,
    ensures
        defs_map_acc(rows, j, acc).contains_key(k),
        defs_map_acc(rows, j, acc)[k] == rows[i].1,
    decreases rows.len() - j,
{
    if j == i {
        lemma_defs_map_acc_no_match(rows, j + 1, acc.insert(rows[j].0, rows[j].1), k);
    } else {
        lemma_defs_map_acc_last_match(rows, j + 1, i, acc.insert(rows[j].0, rows[j].1), k);
    }
}

impl DefinitionRegistry {
    /// The section/key-keyed map this registry stands for.
    pub open spec fn view(&self) -> Map<(Seq<char>, Seq<char>), (ValueType, Seq<char>)> {
        defs_map(rows_view(self.rows@))
    }
}

impl Definition {
    /// Looks the definition of a section and key pair up; the latest row for
    /// the pair answers, and absence is an answer, not an error.
    pub fn get_def<'a>(
        registry: &'a DefinitionRegistry,
        section_name: &Vec<char>,
        key: &Vec<char>,
    ) -> (r: Option<&'a Definition>)
        ensures
            match r {
                Some(d) => registry@.contains_key((section_name@, key@)) && registry@[
                    (section_name@, key@)
                ] == (d.value_type, d.description@),
                None => !registry@.contains_key((section_name@, key@)),
            },
    {
        let ghost k = (section_name@, key@);
        let ghost rv = rows_view(registry.rows@);
        let mut i: usize = registry.rows.len();
        while i > 0
            invariant
                i <= registry.rows.len(),
                rv == rows_view(registry.rows@),
                k == (section_name@, key@),
                forall|m: int| i <= m < rv.len() ==> (#[trigger] rv[m]).0 != k,
            decreases i,
        {
            i = i - 1;
            let row = &registry.rows[i];
            if text_eq(&row.section, section_name) && text_eq(&row.key, key) {
                proof {
                    assert(rv[i as int].0 == k);
                    lemma_defs_map_acc_last_match(rv, 0, i as int, Map::empty(), k);
                }
                return Some(&row.definition);
            }
            proof {
                assert(rv[i as int].0 != k);
            }
        }
        proof {
            lemma_defs_map_acc_no_match(rv, 0, Map::empty(), k);
        }
        None
    }
}

/// One parsed table row.
pub open spec fn table_row(
    section: Seq<char>,
    key: Seq<char>,
    d: (ValueType, Seq<char>),
) -> ((Seq<char>, Seq<char>), (ValueType, Seq<char>)) {
    ((section, key), d)
}

/// The rows one table line between `start` and `endl` stands for: one row,
/// or four under the concrete player sections when the line's section is
/// `Player`.
pub open spec fn line_rows(s: Seq<char>, start: int, endl: int) -> Seq<
    ((Seq<char>, Seq<char>), (ValueType, Seq<char>)),
> {
    let p1 = first_sep_before(s, start, endl, '|');
    let p2 = first_sep_before(s, p1 + 1, endl, '|');
    let p3 = first_sep_before(s, p2 + 1, endl, '|');
    let p4 = first_sep_before(s, p3 + 1, endl, '|');
    let section = s.subrange(start, p1);
    let key = s.subrange(p1 + 1, p2);
    let d = (parse_value_type(s.subrange(p2 + 1, p3)), s.subrange(p3 + 1, p4));
    if section == "Player"@ {
        seq![
            table_row("Player1"@, key, d),
            table_row("Player2"@, key, d),
            table_row("Player3"@, key, d),
            table_row("Player4"@, key, d),
        ]
    } else {
        seq![table_row(section, key, d)]
    }
}

/// A line is well formed when it has at least four pipe-delimited fields.
pub open spec fn line_wf(s: Seq<char>, start: int, endl: int) -> bool {
    let p1 = first_sep_before(s, start, endl, '|');
    let p2 = first_sep_before(s, p1 + 1, endl, '|');
    let p3 = first_sep_before(s, p2 + 1, endl, '|');
    p1 < endl && p2 < endl && p3 < endl
}

/// The rows of the table text from position `pos` on, line by line.
pub open spec fn table_rows(s: Seq<char>, pos: int) -> Seq<
    ((Seq<char>, Seq<char>), (ValueType, Seq<char>)),
>
    decreases s.len() - pos,
    when 0 <= pos
    via table_rows_decreases
{
    if pos >= s.len() {
        Seq::empty()
    } else {
        let e = first_sep_from(s, pos, '\n');
        line_rows(s, pos, e) + if e >= s.len() {
            Seq::<((Seq<char>, Seq<char>), (ValueType, Seq<char>))>::empty()
        } else {
            table_rows(s, e + 1)
        }
    }
}

#[via_fn]
proof fn table_rows_decreases(s: Seq<char>, pos: int) {
    if 0 <= pos < s.len() {
        crate::text::lemma_first_sep_from(s, pos, '\n');
    }
}

/// Every line of the table from position `pos` on is well formed.
pub open spec fn table_wf(s: Seq<char>, pos: int) -> bool
    decreases s.len() - pos,
    when 0 <= pos
    via table_wf_decreases
{
    if pos >= s.len() {
        true
    } else {
        let e = first_sep_from(s, pos, '\n');
        line_wf(s, pos, e) && (e >= s.len() || table_wf(s, e + 1))
    }
}

#[via_fn]
proof fn table_wf_decreases(s: Seq<char>, pos: int) {
    if 0 <= pos < s.len() {
        crate::text::lemma_first_sep_from(s, pos, '\n');
    }
}

/// Builds the definition registry out of its pipe-delimited table, one
/// `section|key|valueType|docKey` row per line. A malformed table — any line
/// with fewer than four fields — is a startup fault and lies outside this
/// builder's domain.
pub fn init_definitions(table: &Vec<char>) -> (r: DefinitionRegistry)
    requires
        table_wf(table@, 0),
    ensures
        rows_view(r.rows@) == table_rows(table@, 0),
        r@ == defs_map(table_rows(table@, 0)),
{
    let mut rows: Vec<DefRow> = Vec::new();
    let mut pos: usize = 0;
    let player_name = chars_of("Player");
    proof {
        assert(rows_view(rows@) + table_rows(table@, 0) =~= table_rows(table@, 0));
    }
    while pos < table.len()
        invariant
            pos <= table.len(),
            table_wf(table@, pos as int),
            player_name@ == "Player"@,
            rows_view(rows@) + table_rows(table@, pos as int) =~= table_rows(table@, 0),
        decreases table.len() - pos,
    {
        let ghost rows_before = rows_view(rows@);
        let e = find_from(table, pos, '\n');
        let p1 = find_before(table, pos, e, '|');
        proof {
            assert(p1 < e);
        }
        let p2 = find_before(table, p1 + 1, e, '|');
        proof {
            assert(p2 < e);
        }
        let p3 = find_before(table, p2 + 1, e, '|');
        proof {
            assert(p3 < e);
        }
        let p4 = find_before(table, p3 + 1, e, '|');
        let section = copy_range(table, pos, p1);
        let key = copy_range(table, p1 + 1, p2);
        let vt_cell = copy_range(table, p2 + 1, p3);
        let desc = copy_range(table, p3 + 1, p4);
        let value_type = ValueType::from_text(&vt_cell);
        if text_eq(&section, &player_name) {
            rows.push(
                DefRow {
                    section: chars_of("Player1"),
                    key: copy_key(&key),
                    definition: Definition { value_type, description: copy_key(&desc) },
                },
            );
            rows.push(
                DefRow {
                    section: chars_of("Player2"),
                    key: copy_key(&key),
                    definition: Definition { value_type, description: copy_key(&desc) },
                },
            );
            rows.push(
                DefRow {
                    section: chars_of("Player3"),
                    key: copy_key(&key),
                    definition: Definition { value_type, description: copy_key(&desc) },
                },
            );
            rows.push(
                DefRow {
                    section: chars_of("Player4"),
                    key,
                    definition: Definition { value_type, description: desc },
                },
            );
        } else {
            rows.push(DefRow { section, key, definition: Definition { value_type, description: desc } });
        }
        proof {
            assert(rows_view(rows@) =~= rows_before + line_rows(table@, pos as int, e as int));
        }
        if e >= table.len() {
            pos = table.len();
            proof {
                assert(table_rows(table@, pos as int) =~= Seq::<
                    ((Seq<char>, Seq<char>), (ValueType, Seq<char>)),
                >::empty());
                assert(rows_view(rows@) + table_rows(table@, pos as int) =~= table_rows(
                    table@,
                    0,
                ));
            }
        } else {
            pos = e + 1;
            proof {
                assert(rows_view(rows@) + table_rows(table@, pos as int) =~= table_rows(
                    table@,
                    0,
                ));
            }
        }
    }
    proof {
        assert(rows_view(rows@) =~= table_rows(table@, 0));
    }
    DefinitionRegistry { rows }
}

/// Copies a row key.
fn copy_key(v: &Vec<char>) -> (r: Vec<char>)
    ensures
        r@ == v@,
{
    crate::text::copy_text(v)
}

/// One of the four concrete player sections.
pub open spec fn player_section(s: Seq<char>) -> bool {
    s == "Player1"@ || s == "Player2"@ || s == "Player3"@ || s == "Player4"@
}

/// All four player sections answer alike: for every key, the entry under
/// one of them exists exactly when it exists under any other, and with the
/// same definition.
pub open spec fn player_sections_agree(
    m: Map<(Seq<char>, Seq<char>), (ValueType, Seq<char>)>,
) -> bool {
    forall|s1: Seq<char>, s2: Seq<char>, k: Seq<char>|
        #![trigger m.contains_key((s1, k)), m.contains_key((s2, k))]
        player_section(s1) && player_section(s2) ==> ((m.contains_key((s1, k))
            <==> m.contains_key((s2, k))) && (m.contains_key((s1, k)) ==> m[(s1, k)] == m[
            (s2, k)
        ]))
}

/// No line of the table from position `pos` on names a concrete player
/// section outright.
pub open spec fn table_sections_plain(s: Seq<char>, pos: int) -> bool
    decreases s.len() - pos,
    when 0 <= pos
    via table_sections_plain_decreases
{
    if pos >= s.len() {
        true
    } else {
        let e = first_sep_from(s, pos, '\n');
        let p1 = first_sep_before(s, pos, e, '|');
        !player_section(s.subrange(pos, p1)) && (e >= s.len() || table_sections_plain(s, e + 1))
    }
}

#[via_fn]
proof fn table_sections_plain_decreases(s: Seq<char>, pos: int) {
    if 0 <= pos < s.len() {
        crate::text::lemma_first_sep_from(s, pos, '\n');
    }
}

/// Writing rows behind position `a.len() + i` of a concatenation is writing
/// rows behind position `i` of the second part.
proof fn lemma_defs_map_acc_shift(
    a: Seq<((Seq<char>, Seq<char>), (ValueType, Seq<char>))>,
    b: Seq<((Seq<char>, Seq<char>), (ValueType, Seq<char>))>,
    i: int,
    acc: Map<(Seq<char>, Seq<char>), (ValueType, Seq<char>)>,
)
    requires
        0 <= i <= b.len(),
    ensures
        defs_map_acc(a + b, a.len() + i, acc) == defs_map_acc(b, i, acc),
    decreases b.len() - i,
{
    if i < b.len() {
        assert((a + b)[a.len() + i] == b[i]);
        lemma_defs_map_acc_shift(a, b, i + 1, acc.insert(b[i].0, b[i].1));
    }
}

/// Writing a concatenation of rows is writing its first part, then its
/// second.
proof fn lemma_defs_map_acc_concat(
    a: Seq<((Seq<char>, Seq<char>), (ValueType, Seq<char>))>,
    b: Seq<((Seq<char>, Seq<char>), (ValueType, Seq<char>))>,
    j: int,
    acc: Map<(Seq<char>, Seq<char>), (ValueType, Seq<char>)>,
)
    requires
        0 <= j <= a.len(),
    ensures
        defs_map_acc(a + b, j, acc) == defs_map_acc(b, 0, defs_map_acc(a, j, acc)),
    decreases a.len() - j,
{
    if j < a.len() {
        assert((a + b)[j] == a[j]);
        lemma_defs_map_acc_concat(a, b, j + 1, acc.insert(a[j].0, a[j].1));
    } else {
        lemma_defs_map_acc_shift(a, b, 0, acc);
    }
}

/// The rows of one line keep the four player sections agreeing: a `Player`
/// line writes all four alike, and a line under any other section — one
/// that does not name a concrete player section outright — touches none of
/// them.
proof fn lemma_line_rows_preserve_agreement(
    s: Seq<char>,
    start: int,
    endl: int,
    acc: Map<(Seq<char>, Seq<char>), (ValueType, Seq<char>)>,
)
    requires
        player_sections_agree(acc),
        !player_section(
            s.subrange(start, first_sep_before(s, start, endl, '|')),
        ),
    ensures
        player_sections_agree(defs_map_acc(line_rows(s, start, endl), 0, acc)),
{
    let p1 = first_sep_before(s, start, endl, '|');
    let p2 = first_sep_before(s, p1 + 1, endl, '|');
    let p3 = first_sep_before(s, p2 + 1, endl, '|');
    let p4 = first_sep_before(s, p3 + 1, endl, '|');
    let section = s.subrange(start, p1);
    let key = s.subrange(p1 + 1, p2);
    let d = (parse_value_type(s.subrange(p2 + 1, p3)), s.subrange(p3 + 1, p4));
    let m = defs_map_acc(line_rows(s, start, endl), 0, acc);
    reveal_strlit("Player1");
    reveal_strlit("Player2");
    reveal_strlit("Player3");
    reveal_strlit("Player4");
    if section == "Player"@ {
        let m4 = acc.insert(("Player1"@, key), d).insert(("Player2"@, key), d).insert(
            ("Player3"@, key),
            d,
        ).insert(("Player4"@, key), d);
        assert(m == m4) by {
            reveal_with_fuel(defs_map_acc, 5);
        };
        assert forall|s1: Seq<char>, s2: Seq<char>, k: Seq<char>|
            player_section(s1) && player_section(s2) implies ((#[trigger] m.contains_key((s1, k))
            <==> #[trigger] m.contains_key((s2, k))) && (m.contains_key((s1, k)) ==> m[(s1, k)]
            == m[(s2, k)])) by {
            assert("Player1"@[6] == '1' && "Player2"@[6] == '2' && "Player3"@[6] == '3'
                && "Player4"@[6] == '4');
            if k == key {
                assert(m4.contains_key((s1, k)) && m4[(s1, k)] == d);
                assert(m4.contains_key((s2, k)) && m4[(s2, k)] == d);
            } else {
                assert(m4.contains_key((s1, k)) == acc.contains_key((s1, k)));
                assert(m4.contains_key((s2, k)) == acc.contains_key((s2, k)));
            }
        }
    } else {
        assert(m == acc.insert((section, key), d)) by {
            reveal_with_fuel(defs_map_acc, 2);
        };
        assert forall|s1: Seq<char>, s2: Seq<char>, k: Seq<char>|
            player_section(s1) && player_section(s2) implies ((#[trigger] m.contains_key((s1, k))
            <==> #[trigger] m.contains_key((s2, k))) && (m.contains_key((s1, k)) ==> m[(s1, k)]
            == m[(s2, k)])) by {
            assert(s1 != section && s2 != section);
            assert(m.contains_key((s1, k)) == acc.contains_key((s1, k)));
            assert(m.contains_key((s2, k)) == acc.contains_key((s2, k)));
        }
    }
}

/// Writing the whole table from position `pos` on keeps the four player
/// sections agreeing.
proof fn lemma_table_preserves_agreement(
    s: Seq<char>,
    pos: int,
    acc: Map<(Seq<char>, Seq<char>), (ValueType, Seq<char>)>,
)
    requires
        0 <= pos,
        table_sections_plain(s, pos),
        player_sections_agree(acc),
    ensures
        player_sections_agree(defs_map_acc(table_rows(s, pos), 0, acc)),
    decreases s.len() - pos,
{
    if pos < s.len() {
        crate::text::lemma_first_sep_from(s, pos, '\n');
        let e = first_sep_from(s, pos, '\n');
        lemma_line_rows_preserve_agreement(s, pos, e, acc);
        if e < s.len() {
            lemma_defs_map_acc_concat(line_rows(s, pos, e), table_rows(s, e + 1), 0, acc);
            lemma_table_preserves_agreement(
                s,
                e + 1,
                defs_map_acc(line_rows(s, pos, e), 0, acc),
            );
        } else {
            assert(line_rows(s, pos, e) + Seq::<
                ((Seq<char>, Seq<char>), (ValueType, Seq<char>)),
            >::empty() =~= line_rows(s, pos, e));
        }
    }
}

/// Looking a key up under one concrete player section answers the same
/// definition as under any other: a table row under the special section
/// `Player` is replicated into all four player sections, and a table whose
/// lines never name a concrete player section outright cannot tell them
/// apart.
pub proof fn lemma_player_rows_replicated(table: Seq<char>)
    requires
        table_sections_plain(table, 0),
    ensures
        player_sections_agree(defs_map(table_rows(table, 0))),
{
    let empty_acc = Map::<(Seq<char>, Seq<char>), (ValueType, Seq<char>)>::empty();
    assert(player_sections_agree(empty_acc));
    lemma_table_preserves_agreement(table, 0, empty_acc);
}

/// The rows of one line never carry the literal section `Player`: a
/// `Player` line writes the four concrete player sections instead, and any
/// other line writes its own, different section name.
proof fn lemma_line_rows_no_player_key(
    s: Seq<char>,
    start: int,
    endl: int,
    acc: Map<(Seq<char>, Seq<char>), (ValueType, Seq<char>)>,
    k: Seq<char>,
)
    requires
        !acc.contains_key(("Player"@, k)),
    ensures
        !defs_map_acc(line_rows(s, start, endl), 0, acc).contains_key(("Player"@, k)),
{
    reveal_strlit("Player");
    reveal_strlit("Player1");
    reveal_strlit("Player2");
    reveal_strlit("Player3");
    reveal_strlit("Player4");
    assert("Player"@.len() == 6);
    assert("Player1"@.len() == 7 && "Player2"@.len() == 7 && "Player3"@.len() == 7
        && "Player4"@.len() == 7);
    let p1 = first_sep_before(s, start, endl, '|');
    let p2 = first_sep_before(s, p1 + 1, endl, '|');
    let p3 = first_sep_before(s, p2 + 1, endl, '|');
    let p4 = first_sep_before(s, p3 + 1, endl, '|');
    let section = s.subrange(start, p1);
    let key = s.subrange(p1 + 1, p2);
    let d = (parse_value_type(s.subrange(p2 + 1, p3)), s.subrange(p3 + 1, p4));
    let m = defs_map_acc(line_rows(s, start, endl), 0, acc);
    if section == "Player"@ {
        assert(m == acc.insert(("Player1"@, key), d).insert(("Player2"@, key), d).insert(
            ("Player3"@, key),
            d,
        ).insert(("Player4"@, key), d)) by {
            reveal_with_fuel(defs_map_acc, 5);
        };
    } else {
        assert(m == acc.insert((section, key), d)) by {
            reveal_with_fuel(defs_map_acc, 2);
        };
    }
}

/// Writing the whole table from position `pos` on keeps `Player` out of the
/// stored section names.
proof fn lemma_table_rows_no_player_key(
    s: Seq<char>,
    pos: int,
    acc: Map<(Seq<char>, Seq<char>), (ValueType, Seq<char>)>,
    k: Seq<char>,
)
    requires
        0 <= pos,
        !acc.contains_key(("Player"@, k)),
    ensures
        !defs_map_acc(table_rows(s, pos), 0, acc).contains_key(("Player"@, k)),
    decreases s.len() - pos,
{
    if pos < s.len() {
        crate::text::lemma_first_sep_from(s, pos, '\n');
        let e = first_sep_from(s, pos, '\n');
        lemma_line_rows_no_player_key(s, pos, e, acc, k);
        if e < s.len() {
            lemma_defs_map_acc_concat(line_rows(s, pos, e), table_rows(s, e + 1), 0, acc);
            lemma_table_rows_no_player_key(s, e + 1, defs_map_acc(line_rows(s, pos, e), 0, acc), k);
        } else {
            assert(line_rows(s, pos, e) + Seq::<
                ((Seq<char>, Seq<char>), (ValueType, Seq<char>)),
            >::empty() =~= line_rows(s, pos, e));
        }
    }
}

/// The special section name `Player` is expanded into the four concrete
/// player sections and never stored itself: looking any key up under it
/// answers nothing, whatever the table says.
pub proof fn lemma_player_section_never_stored(table: Seq<char>, k: Seq<char>)
    ensures
        !defs_map(table_rows(table, 0)).contains_key(("Player"@, k)),
{
    let empty_acc = Map::<(Seq<char>, Seq<char>), (ValueType, Seq<char>)>::empty();
    lemma_table_rows_no_player_key(table, 0, empty_acc, k);
}

/// The tokens of a comma-separated list of numbers, one number token per
/// non-empty field, from text position `pos` on. Column offsets advance by
/// each field's length plus one for its separator, whether or not the field
/// emitted a token.
pub open spec fn sep_fields_enc(
    text: Seq<char>,
    pos: int,
    row: int,
    col: int,
    tt: u32,
    st: EncState,
) -> EncState
    decreases text.len() - pos,
    when 0 <= pos
    via sep_fields_enc_decreases
{
    let q = first_sep_from(text, pos, ',');
    let flen = q - pos;
    let st1 = if flen > 0 {
        emit_span(st, row, col, row, col + flen, tt)
    } else {
        st
    };
    if q >= text.len() {
        st1
    } else {
        sep_fields_enc(text, q + 1, row, col + flen + 1, tt, st1)
    }
}

#[via_fn]
proof fn sep_fields_enc_decreases(text: Seq<char>, pos: int, row: int, col: int, tt: u32, st: EncState) {
    if 0 <= pos <= text.len() {
        crate::text::lemma_first_sep_from(text, pos, ',');
    }
}

/// The tokens of a semicolon-separated list of `key=value` pairs from text
/// position `pos` on: for each pair holding an equals sign, a token for the
/// key, one for the sign, and a number token for the value; a pair without
/// one only advances the column offset.
pub open spec fn kv_pairs_enc(
    text: Seq<char>,
    pos: int,
    row: int,
    col: int,
    key_tt: u32,
    op_tt: u32,
    num_tt: u32,
    st: EncState,
) -> EncState
    decreases text.len() - pos,
    when 0 <= pos
    via kv_pairs_enc_decreases
{
    let q = first_sep_from(text, pos, ';');
    let e = first_sep_before(text, pos, q, '=');
    let plen = q - pos;
    let st1 = if e < q {
        let klen = e - pos;
        let st_k = emit_span(st, row, col, row, col + klen, key_tt);
        let st_o = emit_span(st_k, row, col + klen, row, col + klen + 1, op_tt);
        emit_span(st_o, row, col + klen + 1, row, col + plen, num_tt)
    } else {
        st
    };
    if q >= text.len() {
        st1
    } else {
        kv_pairs_enc(text, q + 1, row, col + plen + 1, key_tt, op_tt, num_tt, st1)
    }
}

#[via_fn]
proof fn kv_pairs_enc_decreases(
    text: Seq<char>,
    pos: int,
    row: int,
    col: int,
    key_tt: u32,
    op_tt: u32,
    num_tt: u32,
    st: EncState,
) {
    if 0 <= pos <= text.len() {
        crate::text::lemma_first_sep_from(text, pos, ';');
    }
}

/// The fine-grained tokens a property value contributes, by its declared
/// value type; the value's text must fit the column type, else the state
/// leaves the policy's domain.
pub open spec fn value_enc(
    vt: ValueType,
    n: SyntaxNode,
    text: Seq<char>,
    lut: TokenTypes,
    st: EncState,
) -> EncState {
    if text.len() > u32::MAX {
        EncState { ok: false, ..st }
    } else {
        let row = n.start.row as int;
        let col = n.start.column as int;
        match vt {
            ValueType::String => emit_span(
                st,
                n.start.row as int,
                n.start.column as int,
                n.end.row as int,
                n.end.column as int,
                lut.string,
            ),
            ValueType::Integer => sep_fields_enc(text, 0, row, col, lut.number, st),
            ValueType::IntegerList => sep_fields_enc(text, 0, row, col, lut.number, st),
            ValueType::DWORD => sep_fields_enc(text, 0, row, col, lut.number, st),
            ValueType::IdList => kv_pairs_enc(text, 0, row, col, lut.id, lut.operator, lut.number, st),
            ValueType::MatList => kv_pairs_enc(
                text,
                0,
                row,
                col,
                lut.string,
                lut.operator,
                lut.number,
                st,
            ),
            ValueType::Id => st,
            ValueType::Unknown => st,
        }
    }
}

/// A list walk from a state outside the policy's domain stays outside it.
proof fn lemma_sep_fields_enc_absorbs(text: Seq<char>, pos: int, row: int, col: int, tt: u32, st: EncState)
    requires
        0 <= pos <= text.len(),
        !st.ok,
    ensures
        !sep_fields_enc(text, pos, row, col, tt, st).ok,
    decreases text.len() - pos,
{
    crate::text::lemma_first_sep_from(text, pos, ',');
    let q = first_sep_from(text, pos, ',');
    let flen = q - pos;
    let st1 = if flen > 0 {
        emit_span(st, row, col, row, col + flen, tt)
    } else {
        st
    };
    if q < text.len() {
        lemma_sep_fields_enc_absorbs(text, q + 1, row, col + flen + 1, tt, st1);
    }
}

/// A pair walk from a state outside the policy's domain stays outside it.
proof fn lemma_kv_pairs_enc_absorbs(
    text: Seq<char>,
    pos: int,
    row: int,
    col: int,
    key_tt: u32,
    op_tt: u32,
    num_tt: u32,
    st: EncState,
)
    requires
        0 <= pos <= text.len(),
        !st.ok,
    ensures
        !kv_pairs_enc(text, pos, row, col, key_tt, op_tt, num_tt, st).ok,
    decreases text.len() - pos,
{
    crate::text::lemma_first_sep_from(text, pos, ';');
    let q = first_sep_from(text, pos, ';');
    let e = first_sep_before(text, pos, q, '=');
    let plen = q - pos;
    let st1 = if e < q {
        let klen = e - pos;
        let st_k = emit_span(st, row, col, row, col + klen, key_tt);
        let st_o = emit_span(st_k, row, col + klen, row, col + klen + 1, op_tt);
        emit_span(st_o, row, col + klen + 1, row, col + plen, num_tt)
    } else {
        st
    };
    if q < text.len() {
        lemma_kv_pairs_enc_absorbs(text, q + 1, row, col + plen + 1, key_tt, op_tt, num_tt, st1);
    }
}

/// A value tokenization from a state outside the policy's domain stays
/// outside it.
pub proof fn lemma_value_enc_absorbs(
    vt: ValueType,
    n: SyntaxNode,
    text: Seq<char>,
    lut: TokenTypes,
    st: EncState,
)
    requires
        !st.ok,
    ensures
        !value_enc(vt, n, text, lut, st).ok,
{
    if text.len() <= u32::MAX {
        let row = n.start.row as int;
        let col = n.start.column as int;
        match vt {
            ValueType::Integer => lemma_sep_fields_enc_absorbs(text, 0, row, col, lut.number, st),
            ValueType::IntegerList => lemma_sep_fields_enc_absorbs(
                text,
                0,
                row,
                col,
                lut.number,
                st,
            ),
            ValueType::DWORD => lemma_sep_fields_enc_absorbs(text, 0, row, col, lut.number, st),
            ValueType::IdList => lemma_kv_pairs_enc_absorbs(
                text,
                0,
                row,
                col,
                lut.id,
                lut.operator,
                lut.number,
                st,
            ),
            ValueType::MatList => lemma_kv_pairs_enc_absorbs(
                text,
                0,
                row,
                col,
                lut.string,
                lut.operator,
                lut.number,
                st,
            ),
            _ => {},
        }
    }
}

impl ValueType {
    /// Splits the value's text on commas, emitting one number token per
    /// non-empty field at the value's position.
    fn extract_semantic_tokens_by_sep(
        node: &SyntaxNode,
        ctx: &mut Context,
        source: &Vec<char>,
        token_type: u32,
    )
        requires
            source@.len() <= u32::MAX,
            sep_fields_enc(
                source@,
                0,
                node.start.row as int,
                node.start.column as int,
                token_type,
                ctx_state(*old(ctx)),
            ).ok,
        ensures
            ctx_state(*final(ctx)) == sep_fields_enc(
                source@,
                0,
                node.start.row as int,
                node.start.column as int,
                token_type,
                ctx_state(*old(ctx)),
            ),
            final(ctx).token_types == old(ctx).token_types,
    {
        let row = node.start.row;
        let col0 = node.start.column;
        let ghost target = sep_fields_enc(
            source@,
            0,
            row as int,
            col0 as int,
            token_type,
            ctx_state(*old(ctx)),
        );
        let mut pos: usize = 0;
        let mut col: u64 = col0 as u64;
        loop
            invariant_except_break
                pos <= source.len(),
                source@.len() <= u32::MAX,
                col as int == col0 + pos,
                target.ok,
                sep_fields_enc(
                    source@,
                    pos as int,
                    row as int,
                    col as int,
                    token_type,
                    ctx_state(*ctx),
                ) == target,
                ctx.token_types == old(ctx).token_types,
            ensures
                ctx_state(*ctx) == target,
                ctx.token_types == old(ctx).token_types,
            decreases source.len() - pos,
        {
            let q = find_from(source, pos, ',');
            let flen = q - pos;
            let ghost st_cur = ctx_state(*ctx);
            let ghost st1 = if flen > 0 {
                emit_span(
                    st_cur,
                    row as int,
                    col as int,
                    row as int,
                    col as int + flen,
                    token_type,
                )
            } else {
                st_cur
            };
            proof {
                if q < source.len() && !st1.ok {
                    lemma_sep_fields_enc_absorbs(
                        source@,
                        q as int + 1,
                        row as int,
                        col as int + flen + 1,
                        token_type,
                        st1,
                    );
                }
            }
            if flen > 0 {
                add_semantic_token_at(
                    ctx,
                    token_type,
                    Point { row, column: col as u32 },
                    Point { row, column: (col + flen as u64) as u32 },
                );
            }
            if q >= source.len() {
                break ;
            }
            pos = q + 1;
            col = col + flen as u64 + 1;
        }
    }

    /// Splits the value's text on semicolons and each pair on its first
    /// equals sign, emitting key, operator and value tokens per pair.
    fn extract_semantic_tokens_kv(
        node: &SyntaxNode,
        ctx: &mut Context,
        source: &Vec<char>,
        key_tt: u32,
        op_tt: u32,
        num_tt: u32,
    )
        requires
            source@.len() <= u32::MAX,
            kv_pairs_enc(
                source@,
                0,
                node.start.row as int,
                node.start.column as int,
                key_tt,
                op_tt,
                num_tt,
                ctx_state(*old(ctx)),
            ).ok,
        ensures
            ctx_state(*final(ctx)) == kv_pairs_enc(
                source@,
                0,
                node.start.row as int,
                node.start.column as int,
                key_tt,
                op_tt,
                num_tt,
                ctx_state(*old(ctx)),
            ),
            final(ctx).token_types == old(ctx).token_types,
    {
        let row = node.start.row;
        let col0 = node.start.column;
        let ghost target = kv_pairs_enc(
            source@,
            0,
            row as int,
            col0 as int,
            key_tt,
            op_tt,
            num_tt,
            ctx_state(*old(ctx)),
        );
        let mut pos: usize = 0;
        let mut col: u64 = col0 as u64;
        loop
            invariant_except_break
                pos <= source.len(),
                source@.len() <= u32::MAX,
                col as int == col0 + pos,
                target.ok,
                kv_pairs_enc(
                    source@,
                    pos as int,
                    row as int,
                    col as int,
                    key_tt,
                    op_tt,
                    num_tt,
                    ctx_state(*ctx),
                ) == target,
                ctx.token_types == old(ctx).token_types,
            ensures
                ctx_state(*ctx) == target,
                ctx.token_types == old(ctx).token_types,
            decreases source.len() - pos,
        {
            let q = find_from(source, pos, ';');
            let e = find_before(source, pos, q, '=');
            let plen = q - pos;
            let ghost st_cur = ctx_state(*ctx);
            let ghost st1 = if e < q {
                let klen = e - pos;
                let st_k = emit_span(
                    st_cur,
                    row as int,
                    col as int,
                    row as int,
                    col as int + klen,
                    key_tt,
                );
                let st_o = emit_span(
                    st_k,
                    row as int,
                    col as int + klen,
                    row as int,
                    col as int + klen + 1,
                    op_tt,
                );
                emit_span(
                    st_o,
                    row as int,
                    col as int + klen + 1,
                    row as int,
                    col as int + plen,
                    num_tt,
                )
            } else {
                st_cur
            };
            proof {
                if q < source.len() && !st1.ok {
                    lemma_kv_pairs_enc_absorbs(
                        source@,
                        q as int + 1,
                        row as int,
                        col as int + plen + 1,
                        key_tt,
                        op_tt,
                        num_tt,
                        st1,
                    );
                }
            }
            if e < q {
                let klen = e - pos;
                add_semantic_token_at(
                    ctx,
                    key_tt,
                    Point { row, column: col as u32 },
                    Point { row, column: (col + klen as u64) as u32 },
                );
                add_semantic_token_at(
                    ctx,
                    op_tt,
                    Point { row, column: (col + klen as u64) as u32 },
                    Point { row, column: (col + klen as u64 + 1) as u32 },
                );
                add_semantic_token_at(
                    ctx,
                    num_tt,
                    Point { row, column: (col + klen as u64 + 1) as u32 },
                    Point { row, column: (col + plen as u64) as u32 },
                );
            }
            if q >= source.len() {
                break ;
            }
            pos = q + 1;
            col = col + plen as u64 + 1;
        }
    }

    /// Emits the fine-grained tokens of one property value, by this value
    /// type: the whole span for a plain string, number tokens for
    /// comma-separated numbers, key/operator/value tokens for `key=value`
    /// lists; an `Id` or unknown value contributes nothing here.
    pub fn extract_semantic_tokens(&self, node: &SyntaxNode, ctx: &mut Context, source: &Vec<char>)
        requires
            value_enc(*self, *node, source@, old(ctx).token_types, ctx_state(*old(ctx))).ok,
        ensures
            ctx_state(*final(ctx)) == value_enc(
                *self,
                *node,
                source@,
                old(ctx).token_types,
                ctx_state(*old(ctx)),
            ),
            final(ctx).token_types == old(ctx).token_types,
    {
        match self {
            ValueType::String => {
                let tt = ctx.token_types.string;
                add_semantic_token(ctx, tt, node);
            },
            ValueType::Integer => {
                let tt = ctx.token_types.number;
                Self::extract_semantic_tokens_by_sep(node, ctx, source, tt);
            },
            ValueType::IntegerList => {
                let tt = ctx.token_types.number;
                Self::extract_semantic_tokens_by_sep(node, ctx, source, tt);
            },
            ValueType::DWORD => {
                let tt = ctx.token_types.number;
                Self::extract_semantic_tokens_by_sep(node, ctx, source, tt);
            },
            ValueType::IdList => {
                let key_tt = ctx.token_types.id;
                let op_tt = ctx.token_types.operator;
                let num_tt = ctx.token_types.number;
                Self::extract_semantic_tokens_kv(node, ctx, source, key_tt, op_tt, num_tt);
            },
            ValueType::MatList => {
                let key_tt = ctx.token_types.string;
                let op_tt = ctx.token_types.operator;
                let num_tt = ctx.token_types.number;
                Self::extract_semantic_tokens_kv(node, ctx, source, key_tt, op_tt, num_tt);
            },
            ValueType::Id => {},
            ValueType::Unknown => {},
        }
    }
}

} // verus!
