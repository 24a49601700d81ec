//! The catalog reader's compute half: the introspection query texts, the
//! parsing of the aggregated column listing, and the grouping of foreign-key
//! rows into per-table edge lists.

use vstd::prelude::*;

use crate::text::split_all;
use crate::text::split_seq;
use crate::text::str_eq;
use crate::text::views_of;

verus! {

/// One table of the catalog: its name and its ordered columns, each a
/// `(column_name, native_type)` pair in catalog order.
#[derive(Debug, Clone, PartialEq, Eq)]
pub struct TableDescriptor {
    pub name: String,
    pub columns: Vec<(String, String)>,
}

/// One foreign-key edge: the owning table's local column references a column
/// of the referenced table.
#[derive(Debug, Clone, PartialEq, Eq)]
pub struct ForeignKeyEdge {
    pub owning_table: String,
    pub local_column: String,
    pub referenced_table: String,
    pub referenced_column: String,
}

/// The views of a sequence of string pairs.
pub open spec fn pair_views(v: Seq<(String, String)>) -> Seq<(Seq<char>, Seq<char>)> {
    v.map_values(|p: (String, String)| (p.0@, p.1@))
}

/// The views of a sequence of foreign-key edges.
pub open spec fn edge_views(v: Seq<ForeignKeyEdge>) -> Seq<
    (Seq<char>, Seq<char>, Seq<char>, Seq<char>),
> {
    v.map_values(
        |e: ForeignKeyEdge|
            (e.owning_table@, e.local_column@, e.referenced_table@, e.referenced_column@),
    )
}

/// The views of a sequence of raw foreign-key rows.
pub open spec fn quad_views(v: Seq<(String, String, String, String)>) -> Seq<
    (Seq<char>, Seq<char>, Seq<char>, Seq<char>),
> {
    v.map_values(|r: (String, String, String, String)| (r.0@, r.1@, r.2@, r.3@))
}

/// The read-only introspection query that lists every table of the given
/// schema namespace beside its aggregated `name:type` column listing,
/// grouped by table and ordered by table name.
pub fn catalog_tables_query(schema_ns: &str) -> (r: String)
    ensures
        r@ == "SELECT table_name, string_agg(column_name || ':' || data_type, ', ') AS columns FROM information_schema.columns WHERE table_schema = '"@
            + schema_ns@ + "' GROUP BY table_name ORDER BY table_name"@,
{
    let mut q = String::from_str(
        "SELECT table_name, string_agg(column_name || ':' || data_type, ', ') AS columns FROM information_schema.columns WHERE table_schema = '",
    );
    q.append(schema_ns);
    q.append("' GROUP BY table_name ORDER BY table_name");
    q
}

/// The read-only introspection query that lists every foreign-key
/// constraint of the given schema namespace: the owning table, its local
/// column, and the referenced table and column.
pub fn catalog_relations_query(schema_ns: &str) -> (r: String)
    ensures
        r@ == "SELECT tc.constraint_name, tc.table_name, kcu.column_name, ccu.table_name AS foreign_table_name, ccu.column_name AS foreign_column_name FROM information_schema.table_constraints AS tc JOIN information_schema.key_column_usage AS kcu ON tc.constraint_name = kcu.constraint_name JOIN information_schema.constraint_column_usage AS ccu ON ccu.constraint_name = tc.constraint_name WHERE constraint_type = 'FOREIGN KEY' AND tc.table_schema = '"@
            + schema_ns@ + "'"@,
{
    let mut q = String::from_str(
        "SELECT tc.constraint_name, tc.table_name, kcu.column_name, ccu.table_name AS foreign_table_name, ccu.column_name AS foreign_column_name FROM information_schema.table_constraints AS tc JOIN information_schema.key_column_usage AS kcu ON tc.constraint_name = kcu.constraint_name JOIN information_schema.constraint_column_usage AS ccu ON ccu.constraint_name = tc.constraint_name WHERE constraint_type = 'FOREIGN KEY' AND tc.table_schema = '",
    );
    q.append(schema_ns);
    q.append("'");
    q
}

/// One `name:type` piece of the aggregated column listing: the text before
/// the first colon and the text between the first and the second.
pub open spec fn spec_parse_piece(p: Seq<char>) -> Option<(Seq<char>, Seq<char>)> {
    let sp = split_seq(p, ":"@);
    if sp.len() >= 2 {
        Some((sp[0], sp[1]))
    } else {
        None
    }
}

/// The whole aggregated column listing, `name:type` pieces joined by `", "`;
/// nothing when some piece carries no colon.
pub open spec fn spec_parse_columns(s: Seq<char>) -> Option<Seq<(Seq<char>, Seq<char>)>> {
    let pieces = split_seq(s, ", "@);
    if forall|i: int| 0 <= i < pieces.len() ==> spec_parse_piece(#[trigger] pieces[i]) is Some {
        Some(Seq::new(pieces.len(), |i: int| spec_parse_piece(pieces[i])->0))
    } else {
        None
    }
}

/// Parses the aggregated column listing of one table, as the catalog's
/// grouping query emits it: `name:type` pieces separated by `", "`. Yields
/// the pairs exactly when every piece carries a colon, and nothing
/// otherwise — a malformed listing is refused, not guessed at.
pub fn parse_columns(agg: &str) -> (r: Option<Vec<(String, String)>>)
    ensures
        match r {
            Some(v) => spec_parse_columns(agg@) matches Some(cols) && pair_views(v@) == cols,
            None => spec_parse_columns(agg@) is None,
        },
{
    proof {
        reveal_strlit(", ");
        reveal_strlit(":");
    }
    let pieces = split_all(agg, ", ");
    let ghost piece_views = split_seq(agg@, ", "@);
    let mut out: Vec<(String, String)> = Vec::new();
    let n = pieces.len();
    let mut i: usize = 0;
    while i < n
        invariant
            i <= n,
            n == pieces@.len(),
            views_of(pieces@) == piece_views,
            piece_views == split_seq(agg@, ", "@),
            out@.len() == i,
            forall|j: int|
                0 <= j < i ==> spec_parse_piece(#[trigger] piece_views[j]) is Some,
            forall|j: int|
                0 <= j < i ==> (#[trigger] pair_views(out@)[j]) == spec_parse_piece(
                    piece_views[j],
                )->0,
        decreases n - i,
    {
        proof {
            reveal_strlit(":");
        }
        let sp = split_all(pieces[i].as_str(), ":");
        proof {
            assert(views_of(sp@) == split_seq(piece_views[i as int], ":"@));
        }
        if sp.len() < 2 {
            proof {
                assert(spec_parse_piece(piece_views[i as int]) is None);
            }
            return None;
        }
        let name = sp[0].clone();
        let native = sp[1].clone();
        proof {
            assert(name@ == views_of(sp@)[0]);
            assert(native@ == views_of(sp@)[1]);
        }
        let ghost old_out = out@;
        out.push((name, native));
        proof {
            assert(pair_views(out@) =~= pair_views(old_out).push(
                (out@.last().0@, out@.last().1@),
            ));
        }
        i = i + 1;
    }
    proof {
        let cols = spec_parse_columns(agg@)->0;
        assert(pair_views(out@) =~= cols);
    }
    Some(out)
}

/// Builds one table descriptor per catalog row, each row being the table's
/// name beside its aggregated column listing; nothing when some listing is
/// malformed. Row order — the catalog's own — is kept.
pub fn collect_tables(rows: Vec<(String, String)>) -> (r: Option<Vec<TableDescriptor>>)
    ensures
        match r {
            Some(v) => v@.len() == rows@.len() && forall|i: int|
                0 <= i < v@.len() ==> ((#[trigger] v@[i]).name@ == rows@[i].0@
                    && (spec_parse_columns(rows@[i].1@) matches Some(cols) && pair_views(
                    v@[i].columns@,
                ) == cols)),
            None => exists|i: int|
                0 <= i < rows@.len() && spec_parse_columns(#[trigger] rows@[i].1@) is None,
        },
{
    let mut out: Vec<TableDescriptor> = Vec::new();
    let n = rows.len();
    let mut i: usize = 0;
    while i < n
        invariant
            i <= n,
            n == rows@.len(),
            out@.len() == i,
            forall|j: int|
                0 <= j < i ==> ((#[trigger] out@[j]).name@ == rows@[j].0@ && (spec_parse_columns(
                    rows@[j].1@,
                ) matches Some(cols) && pair_views(out@[j].columns@) == cols)),
        decreases n - i,
    {
        let (name, agg) = (rows[i].0.clone(), rows[i].1.clone());
        match parse_columns(agg.as_str()) {
            Some(columns) => {
                out.push(TableDescriptor { name, columns });
            },
            None => {
                return None;
            },
        }
        i = i + 1;
    }
    Some(out)
}

/// The foreign-key edges a table owns, in row order.
pub open spec fn spec_edges_for(
    rows: Seq<(Seq<char>, Seq<char>, Seq<char>, Seq<char>)>,
    t: Seq<char>,
) -> Seq<(Seq<char>, Seq<char>, Seq<char>, Seq<char>)> {
    rows.filter(|r: (Seq<char>, Seq<char>, Seq<char>, Seq<char>)| r.0 == t)
}

/// Some group of `groups` is keyed by the table name `t`.
pub open spec fn has_group(groups: Seq<(String, Vec<ForeignKeyEdge>)>, t: Seq<char>) -> bool {
    exists|g: int| 0 <= g < groups.len() && (#[trigger] groups[g]).0@ == t
}

/// Some key of `keys` is the table name `t`.
pub open spec fn key_present(keys: Seq<String>, t: Seq<char>) -> bool {
    exists|k: int| 0 <= k < keys.len() && (#[trigger] keys[k])@ == t
}

/// Some row of `rows` is owned by the table named `t`.
pub open spec fn owns_row(rows: Seq<(String, String, String, String)>, t: Seq<char>) -> bool {
    exists|i: int| 0 <= i < rows.len() && (#[trigger] rows[i]).0@ == t
}

/// Groups raw foreign-key rows — each `(owning_table, local_column,
/// referenced_table, referenced_column)` — into one edge list per owning
/// table. Every owning table of the input gets exactly one group holding
/// exactly its rows in row order; the mapping carries no order of its own.
pub fn group_relations(rows: &Vec<(String, String, String, String)>) -> (groups: Vec<
    (String, Vec<ForeignKeyEdge>),
>)
    ensures
        forall|g: int|
            0 <= g < groups@.len() ==> edge_views((#[trigger] groups@[g]).1@) == spec_edges_for(
                quad_views(rows@),
                groups@[g].0@,
            ),
        forall|g1: int, g2: int|
            0 <= g1 < g2 < groups@.len() ==> (#[trigger] groups@[g1]).0@ != (
            #[trigger] groups@[g2]).0@,
        forall|i: int| 0 <= i < rows@.len() ==> has_group(groups@, (#[trigger] rows@[i]).0@),
        forall|g: int| 0 <= g < groups@.len() ==> owns_row(rows@, (#[trigger] groups@[g]).0@),
{
    // first pass: the distinct owning tables, in first-appearance order
    let mut keys: Vec<String> = Vec::new();
    let n = rows.len();
    let mut i: usize = 0;
    while i < n
        invariant
            i <= n,
            n == rows@.len(),
            forall|k1: int, k2: int|
                0 <= k1 < k2 < keys@.len() ==> (#[trigger] keys@[k1])@ != (#[trigger] keys@[k2])@,
            forall|j: int| 0 <= j < i ==> key_present(keys@, (#[trigger] rows@[j]).0@),
            forall|k: int|
                0 <= k < keys@.len() ==> owns_row(rows@.take(i as int), (#[trigger] keys@[k])@),
        decreases n - i,
    {
        let ghost pre_keys = keys@;
        let mut present = false;
        let klen = keys.len();
        let mut k: usize = 0;
        while k < klen
            invariant
                k <= klen,
                klen == keys@.len(),
                i < n,
                n == rows@.len(),
                present ==> key_present(keys@, rows@[i as int].0@),
                !present ==> forall|k2: int|
                    0 <= k2 < k ==> (#[trigger] keys@[k2])@ != rows@[i as int].0@,
            decreases klen - k,
        {
            if str_eq(keys[k].as_str(), rows[i].0.as_str()) {
                present = true;
            }
            k = k + 1;
        }
        if !present {
            keys.push(rows[i].0.clone());
        }
        proof {
            assert(rows@.take(i + 1)[i as int] == rows@[i as int]);
            // earlier keys keep their witnessing rows in the longer prefix,
            // and earlier rows keep their keys in the grown key list
            assert forall|k2: int| 0 <= k2 < keys@.len() implies owns_row(
                rows@.take(i + 1),
                (#[trigger] keys@[k2])@,
            ) by {
                if k2 < pre_keys.len() {
                    let w = choose|j: int|
                        0 <= j < rows@.take(i as int).len() && (#[trigger] rows@.take(
                            i as int,
                        )[j]).0@ == pre_keys[k2]@;
                    assert(rows@.take(i + 1)[w] == rows@.take(i as int)[w]);
                } else {
                    assert(keys@[k2]@ == rows@.take(i + 1)[i as int].0@);
                }
            }
            assert forall|j: int| 0 <= j < i + 1 implies key_present(
                keys@,
                (#[trigger] rows@[j]).0@,
            ) by {
                if j < i {
                    let w = choose|k2: int|
                        0 <= k2 < pre_keys.len() && (#[trigger] pre_keys[k2])@ == rows@[j].0@;
                    assert(keys@[w]@ == rows@[j].0@);
                } else {
                    if present {
                        let w = choose|k2: int|
                            0 <= k2 < pre_keys.len() && (#[trigger] pre_keys[k2])@ == rows@[
                                i as int
                            ].0@;
                        assert(keys@[w]@ == rows@[j].0@);
                    } else {
                        assert(keys@[keys@.len() - 1]@ == rows@[j].0@);
                    }
                }
            }
        }
        i = i + 1;
    }
    proof {
        assert(rows@.take(n as int) =~= rows@);
    }
    // second pass: one group per table, holding exactly its rows in order
    let mut groups: Vec<(String, Vec<ForeignKeyEdge>)> = Vec::new();
    let m = keys.len();
    let mut g: usize = 0;
    while g < m
        invariant
            g <= m,
            m == keys@.len(),
            n == rows@.len(),
            groups@.len() == g,
            forall|k1: int, k2: int|
                0 <= k1 < k2 < keys@.len() ==> (#[trigger] keys@[k1])@ != (#[trigger] keys@[k2])@,
            forall|j: int| 0 <= j < n ==> key_present(keys@, (#[trigger] rows@[j]).0@),
            forall|k: int| 0 <= k < keys@.len() ==> owns_row(rows@, (#[trigger] keys@[k])@),
            forall|k: int| 0 <= k < g ==> (#[trigger] groups@[k]).0@ == keys@[k]@,
            forall|k: int|
                0 <= k < g ==> edge_views((#[trigger] groups@[k]).1@) == spec_edges_for(
                    quad_views(rows@),
                    keys@[k]@,
                ),
        decreases m - g,
    {
        let key = keys[g].clone();
        let mut es: Vec<ForeignKeyEdge> = Vec::new();
        let mut j: usize = 0;
        while j < n
            invariant
                j <= n,
                n == rows@.len(),
                key@ == keys@[g as int]@,
                g < m,
                m == keys@.len(),
                edge_views(es@) == spec_edges_for(quad_views(rows@.take(j as int)), key@),
            decreases n - j,
        {
            let ghost quad = quad_views(rows@)[j as int];
            proof {
                reveal(Seq::filter);
                assert(quad_views(rows@.take(j + 1)).drop_last() =~= quad_views(
                    rows@.take(j as int),
                ));
                assert(quad_views(rows@.take(j + 1)).last() == quad);
            }
            if str_eq(rows[j].0.as_str(), key.as_str()) {
                let ghost old_es = es@;
                es.push(
                    ForeignKeyEdge {
                        owning_table: rows[j].0.clone(),
                        local_column: rows[j].1.clone(),
                        referenced_table: rows[j].2.clone(),
                        referenced_column: rows[j].3.clone(),
                    },
                );
                proof {
                    assert(edge_views(es@) =~= edge_views(old_es).push(quad));
                }
            }
            j = j + 1;
        }
        proof {
            assert(rows@.take(n as int) =~= rows@);
        }
        groups.push((key, es));
        g = g + 1;
    }
    proof {
        assert forall|i2: int| 0 <= i2 < rows@.len() implies has_group(
            groups@,
            (#[trigger] rows@[i2]).0@,
        ) by {
            assert(key_present(keys@, rows@[i2].0@));
            let k = choose|k: int|
                0 <= k < keys@.len() && (#[trigger] keys@[k])@ == rows@[i2].0@;
            assert(groups@[k].0@ == rows@[i2].0@);
        }
    }
    groups
}

/// The edges grouped under the first group keyed `t`; none when no group is.
pub open spec fn spec_lookup_edges(
    groups: Seq<(String, Vec<ForeignKeyEdge>)>,
    t: Seq<char>,
) -> Seq<ForeignKeyEdge>
    decreases groups.len(),
{
    if groups.len() == 0 {
        Seq::empty()
    } else if groups[0].0@ == t {
        groups[0].1@
    } else {
        spec_lookup_edges(groups.drop_first(), t)
    }
}

/// The edge list grouped under `table`, if the table owns any foreign key.
pub fn relations_for<'a>(
    groups: &'a Vec<(String, Vec<ForeignKeyEdge>)>,
    table: &str,
) -> (r: Option<&'a Vec<ForeignKeyEdge>>)
    ensures
        match r {
            Some(es) => has_group(groups@, table@) && es@ == spec_lookup_edges(groups@, table@),
            None => !has_group(groups@, table@) && spec_lookup_edges(groups@, table@)
                == Seq::<ForeignKeyEdge>::empty(),
        },
{
    let n = groups.len();
    let mut g: usize = 0;
    proof {
        assert(groups@.skip(0) =~= groups@);
    }
    while g < n
        invariant
            g <= n,
            n == groups@.len(),
            forall|k: int| 0 <= k < g ==> (#[trigger] groups@[k]).0@ != table@,
            spec_lookup_edges(groups@, table@) == spec_lookup_edges(
                groups@.skip(g as int),
                table@,
            ),
        decreases n - g,
    {
        proof {
            assert(groups@.skip(g as int)[0] == groups@[g as int]);
            assert(groups@.skip(g as int).drop_first() =~= groups@.skip(g + 1));
        }
        if str_eq(groups[g].0.as_str(), table) {
            return Some(&groups[g].1);
        }
        g = g + 1;
    }
    proof {
        assert(groups@.skip(n as int) =~= Seq::<(String, Vec<ForeignKeyEdge>)>::empty());
    }
    None
}

} // verus!
