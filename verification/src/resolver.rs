//! The resolver runtime's logic: the per-row bag of coerced textual values,
//! the generated SQL for a root list field (one statement, joins included,
//! capped at one hundred rows), and the object-field getter that turns a
//! bag entry into a typed graph value.

use vstd::prelude::*;

use crate::catalog::ForeignKeyEdge;
use crate::cells::RawCell;
use crate::cells::reflective_get;
use crate::cells::spec_render_cell;
use crate::error::ResolutionError;
use crate::numeral::spec_parse_i64;
use crate::numeral::parse_i64;
use crate::scalar::ScalarKind;
use crate::schema::rel_name;
use crate::schema::relation_field_names;
use crate::text::contains_seq;
use crate::text::contains_sub;
use crate::text::join_seq;
use crate::text::join_with;
use crate::text::str_eq;
use crate::text::views_of;

verus! {

/// The transient, per-result-row mapping from a requested field name to its
/// coerced textual value. Owned by the one row that produced it; a field
/// name resolves to its first entry.
#[derive(Debug, Clone, PartialEq, Eq)]
pub struct RowBag {
    pub entries: Vec<(String, String)>,
}

/// The first value stored under the key `k`, if any.
pub open spec fn spec_lookup(entries: Seq<(String, String)>, k: Seq<char>) -> Option<Seq<char>>
    decreases entries.len(),
{
    if entries.len() == 0 {
        None
    } else if entries[0].0@ == k {
        Some(entries[0].1@)
    } else {
        spec_lookup(entries.drop_first(), k)
    }
}

impl RowBag {
    /// The first value stored under the key `k`, if any.
    pub open spec fn spec_get(self, k: Seq<char>) -> Option<Seq<char>> {
        spec_lookup(self.entries@, k)
    }

    /// Looks the field name up in the bag.
    pub fn get(&self, k: &str) -> (r: Option<&String>)
        ensures
            match r {
                Some(v) => self.spec_get(k@) == Some(v@),
                None => self.spec_get(k@) is None,
            },
    {
        let n = self.entries.len();
        let mut i: usize = 0;
        proof {
            assert(self.entries@.skip(0) =~= self.entries@);
        }
        while i < n
            invariant
                i <= n,
                n == self.entries@.len(),
                spec_lookup(self.entries@, k@) == spec_lookup(self.entries@.skip(i as int), k@),
            decreases n - i,
        {
            proof {
                assert(self.entries@.skip(i as int)[0] == self.entries@[i as int]);
                assert(self.entries@.skip(i as int).drop_first() =~= self.entries@.skip(i + 1));
            }
            if str_eq(self.entries[i].0.as_str(), k) {
                return Some(&self.entries[i].1);
            }
            i = i + 1;
        }
        proof {
            assert(self.entries@.skip(n as int) =~= Seq::<(String, String)>::empty());
        }
        None
    }
}

/// A field the root resolver projected is always resolvable from the row's
/// bag: whenever some entry carries the key, the lookup yields a value — so
/// a bag populated with a table's projection can never send a projected
/// column into the missing-field failure.
pub proof fn lemma_projected_field_resolvable(entries: Seq<(String, String)>, k: Seq<char>)
    requires
        exists|i: int| 0 <= i < entries.len() && (#[trigger] entries[i]).0@ == k,
    ensures
        spec_lookup(entries, k) is Some,
    decreases entries.len(),
{
    if entries[0].0@ != k {
        let w = choose|i: int| 0 <= i < entries.len() && (#[trigger] entries[i]).0@ == k;
        assert(entries.drop_first()[w - 1].0@ == k);
        lemma_projected_field_resolvable(entries.drop_first(), k);
    }
}

/// Fills one row's bag: entry `i` keys the `i`th requested column name to
/// the coerced text of the `i`th raw cell, the coercion dispatched on the
/// column's native type.
pub fn populate_row_bag(
    names: &Vec<String>,
    native_types: &Vec<String>,
    cells: &Vec<RawCell>,
) -> (bag: RowBag)
    requires
        names@.len() == cells@.len(),
        native_types@.len() == cells@.len(),
        forall|i: int| 0 <= i < cells@.len() ==> (#[trigger] cells@[i]).wf(),
    ensures
        bag.entries@.len() == names@.len(),
        forall|i: int|
            0 <= i < bag.entries@.len() ==> ((#[trigger] bag.entries@[i]).0@ == names@[i]@
                && bag.entries@[i].1@ == spec_render_cell(cells@[i])),
{
    let mut entries: Vec<(String, String)> = Vec::new();
    let n = names.len();
    let mut i: usize = 0;
    while i < n
        invariant
            i <= n,
            n == names@.len(),
            names@.len() == cells@.len(),
            native_types@.len() == cells@.len(),
            forall|j: int| 0 <= j < cells@.len() ==> (#[trigger] cells@[j]).wf(),
            entries@.len() == i,
            forall|j: int|
                0 <= j < i ==> ((#[trigger] entries@[j]).0@ == names@[j]@ && entries@[j].1@
                    == spec_render_cell(cells@[j])),
        decreases n - i,
    {
        let value = reflective_get(native_types[i].as_str(), &cells[i]);
        entries.push((names[i].clone(), value));
        i = i + 1;
    }
    RowBag { entries }
}

/// A typed graph value, as a field resolves to it: a float arrives as its
/// decimal text, parsed to a number at the engine boundary outside this
/// crate.
#[derive(Debug, Clone, PartialEq, Eq)]
pub enum GraphValue {
    Null,
    Boolean(bool),
    Integer(i64),
    Float(String),
    Text(String),
}

/// Resolves one object field from the row's bag. A name missing from the
/// bag is the contract violation between schema and projection and fails
/// loudly; the stored sentinel `NULL` yields the graph null whatever the
/// declared scalar kind; otherwise the text parses under the declared kind —
/// an integer strictly (never truncated or wrapped), a boolean as exactly
/// the literal `true` against everything else.
pub fn resolve_field(bag: &RowBag, column: &str, kind: ScalarKind) -> (r: Result<
    GraphValue,
    ResolutionError,
>)
    ensures
        bag.spec_get(column@) is None ==> (r matches Err(ResolutionError::MissingField(c)) && c@
            == column@),
        bag.spec_get(column@) matches Some(v) ==> {
            if v == "NULL"@ {
                r matches Ok(GraphValue::Null)
            } else {
                match kind {
                    ScalarKind::Boolean => r matches Ok(GraphValue::Boolean(b)) && b == (v
                        == "true"@),
                    ScalarKind::Integer => match spec_parse_i64(v) {
                        Some(n) => r matches Ok(GraphValue::Integer(m)) && m == n,
                        None => r matches Err(ResolutionError::MalformedValue(t)) && t@ == v,
                    },
                    ScalarKind::Float => r matches Ok(GraphValue::Float(s)) && s@ == v,
                    ScalarKind::Text => r matches Ok(GraphValue::Text(s)) && s@ == v,
                }
            }
        },
{
    let found = match bag.get(column) {
        Some(v) => v.clone(),
        None => {
            return Err(ResolutionError::MissingField(String::from_str(column)));
        },
    };
    if str_eq(found.as_str(), "NULL") {
        return Ok(GraphValue::Null);
    }
    match kind {
        ScalarKind::Boolean => Ok(GraphValue::Boolean(str_eq(found.as_str(), "true"))),
        ScalarKind::Integer => match parse_i64(found.as_str()) {
            Some(n) => Ok(GraphValue::Integer(n)),
            None => Err(ResolutionError::MalformedValue(found)),
        },
        ScalarKind::Float => Ok(GraphValue::Float(found)),
        ScalarKind::Text => Ok(GraphValue::Text(found)),
    }
}

/// The fixed marker whose presence makes a requested field name a relation
/// field of the synthesized pattern.
pub open spec fn marker() -> Seq<char> {
    "_join_on_"@
}

/// The requested names without the relation marker, in request order: the
/// native column projection.
pub open spec fn native_list(req: Seq<Seq<char>>) -> Seq<Seq<char>>
    decreases req.len(),
{
    if req.len() == 0 {
        Seq::empty()
    } else if contains_seq(req[0], marker()) {
        native_list(req.drop_first())
    } else {
        seq![req[0]] + native_list(req.drop_first())
    }
}

/// The requested names carrying the relation marker, in request order.
pub open spec fn relation_list(req: Seq<Seq<char>>) -> Seq<Seq<char>>
    decreases req.len(),
{
    if req.len() == 0 {
        Seq::empty()
    } else if contains_seq(req[0], marker()) {
        seq![req[0]] + relation_list(req.drop_first())
    } else {
        relation_list(req.drop_first())
    }
}

/// The first position at or after `k` whose edge synthesizes the relation
/// field `name`; `-1` when none does.
pub open spec fn edge_match_from(edges: Seq<ForeignKeyEdge>, name: Seq<char>, k: int) -> int
    decreases edges.len() - k,
{
    if k < 0 || k >= edges.len() {
        -1
    } else if rel_name(edges, k) == name {
        k
    } else {
        edge_match_from(edges, name, k + 1)
    }
}

/// The join clause generated for one foreign-key edge: the referenced table
/// joined on the owning table's local column against the referenced column.
pub open spec fn join_clause(ns: Seq<char>, table: Seq<char>, e: ForeignKeyEdge) -> Seq<char> {
    " JOIN "@ + ns + "."@ + e.referenced_table@ + " ON "@ + table + "."@ + e.local_column@ + " = "@
        + e.referenced_table@ + "."@ + e.referenced_column@
}

/// The concatenated join clauses for the requested relation fields, in
/// request order; nothing when some requested relation field matches no
/// edge.
pub open spec fn joins_text(
    ns: Seq<char>,
    table: Seq<char>,
    edges: Seq<ForeignKeyEdge>,
    rels: Seq<Seq<char>>,
) -> Option<Seq<char>>
    decreases rels.len(),
{
    if rels.len() == 0 {
        Some(Seq::empty())
    } else {
        let k = edge_match_from(edges, rels[0], 0);
        if k < 0 {
            None
        } else {
            match joins_text(ns, table, edges, rels.drop_first()) {
                None => None,
                Some(rest) => Some(join_clause(ns, table, edges[k]) + rest),
            }
        }
    }
}

/// The one SQL statement a root list field runs: the requested native
/// columns projected from the table in the configured namespace, one join
/// per requested relation field, and the unconditional hundred-row cap.
pub open spec fn spec_build_select(
    ns: Seq<char>,
    table: Seq<char>,
    req: Seq<Seq<char>>,
    edges: Seq<ForeignKeyEdge>,
) -> Option<Seq<char>> {
    match joins_text(ns, table, edges, relation_list(req)) {
        None => None,
        Some(js) => Some(
            "SELECT "@ + join_seq(native_list(req), ", "@) + " FROM "@ + ns + "."@ + table + js
                + " LIMIT 100"@,
        ),
    }
}

/// Builds the one SQL statement for a root list field of `table`: the
/// requested names are partitioned into native columns and relation fields
/// by the marker, each relation field resolves to the join of its edge, and
/// `LIMIT 100` caps every statement. Fails — loudly, per request — exactly
/// when a requested marker-carrying name matches no edge of the table.
pub fn build_select(
    schema_ns: &str,
    table: &str,
    requested: &Vec<String>,
    edges: &Vec<ForeignKeyEdge>,
) -> (r: Result<String, ResolutionError>)
    ensures
        (r matches Ok(s) ==> spec_build_select(schema_ns@, table@, views_of(requested@), edges@)
            == Some(s@)),
        (r matches Err(e) ==> spec_build_select(schema_ns@, table@, views_of(requested@), edges@)
            is None && (e matches ResolutionError::UnknownRelationField(f) && contains_seq(
            f@,
            marker(),
        ) && edge_match_from(edges@, f@, 0) == -1 && exists|i: int|
            0 <= i < requested@.len() && (#[trigger] requested@[i])@ == f@)),
{
    let ghost req = views_of(requested@);
    // partition the requested names by the relation marker
    let mut natives: Vec<String> = Vec::new();
    let mut rels: Vec<String> = Vec::new();
    let n = requested.len();
    let mut i: usize = 0;
    proof {
        assert(req.skip(0) =~= req);
        assert(views_of(natives@) + native_list(req.skip(0)) =~= native_list(req));
        assert(views_of(rels@) + relation_list(req.skip(0)) =~= relation_list(req));
    }
    while i < n
        invariant
            i <= n,
            n == requested@.len(),
            req == views_of(requested@),
            views_of(natives@) + native_list(req.skip(i as int)) == native_list(req),
            views_of(rels@) + relation_list(req.skip(i as int)) == relation_list(req),
            forall|j: int|
                0 <= j < rels@.len() ==> exists|l: int|
                    0 <= l < requested@.len() && (#[trigger] rels@[j])@ == (
                    #[trigger] requested@[l])@,
            forall|j: int| 0 <= j < rels@.len() ==> contains_seq((#[trigger] rels@[j])@, marker()),
        decreases n - i,
    {
        proof {
            assert(req.skip(i as int)[0] == req[i as int]);
            assert(req.skip(i as int).drop_first() =~= req.skip(i + 1));
        }
        let ghost old_natives = natives@;
        let ghost old_rels = rels@;
        if contains_sub(requested[i].as_str(), "_join_on_") {
            rels.push(requested[i].clone());
            proof {
                assert(views_of(rels@) =~= views_of(old_rels).push(req[i as int]));
                assert(views_of(rels@) + relation_list(req.skip(i + 1)) =~= views_of(old_rels) + (
                seq![req[i as int]] + relation_list(req.skip(i + 1))));
            }
        } else {
            natives.push(requested[i].clone());
            proof {
                assert(views_of(natives@) =~= views_of(old_natives).push(req[i as int]));
                assert(views_of(natives@) + native_list(req.skip(i + 1)) =~= views_of(old_natives)
                    + (seq![req[i as int]] + native_list(req.skip(i + 1))));
            }
        }
        i = i + 1;
    }
    proof {
        assert(req.skip(n as int) =~= Seq::<Seq<char>>::empty());
        assert(views_of(natives@) + native_list(req.skip(n as int)) =~= views_of(natives@));
        assert(views_of(rels@) + relation_list(req.skip(n as int)) =~= views_of(rels@));
    }
    // one join clause per requested relation field, in request order
    let names = relation_field_names(edges);
    let ghost rel_views = views_of(rels@);
    let mut joins = String::new();
    let rlen = rels.len();
    let mut t: usize = 0;
    proof {
        assert(rel_views.skip(0) =~= rel_views);
    }
    while t < rlen
        invariant
            t <= rlen,
            rlen == rels@.len(),
            rel_views == views_of(rels@),
            rel_views == relation_list(views_of(requested@)),
            names@.len() == edges@.len(),
            forall|l: int| 0 <= l < names@.len() ==> (#[trigger] names@[l])@ == rel_name(edges@, l),
            forall|j: int|
                0 <= j < rels@.len() ==> exists|l: int|
                    0 <= l < requested@.len() && (#[trigger] rels@[j])@ == (
                    #[trigger] requested@[l])@,
            forall|j: int| 0 <= j < rels@.len() ==> contains_seq((#[trigger] rels@[j])@, marker()),
            match joins_text(schema_ns@, table@, edges@, rel_views.skip(t as int)) {
                None => joins_text(schema_ns@, table@, edges@, rel_views) is None,
                Some(rest) => joins_text(schema_ns@, table@, edges@, rel_views) == Some(
                    joins@ + rest,
                ),
            },
        decreases rlen - t,
    {
        proof {
            assert(rel_views.skip(t as int)[0] == rel_views[t as int]);
            assert(rel_views.skip(t as int).drop_first() =~= rel_views.skip(t + 1));
        }
        // find the edge synthesizing this relation field name
        let elen = edges.len();
        let mut k: usize = 0;
        let mut found: Option<usize> = None;
        proof {
            assert(rel_views[t as int] == rels@[t as int]@);
        }
        while k < elen
            invariant
                k <= elen,
                elen == edges@.len(),
                t < rlen,
                rlen == rels@.len(),
                rel_views == views_of(rels@),
                rel_views[t as int] == rels@[t as int]@,
                names@.len() == edges@.len(),
                forall|l: int|
                    0 <= l < names@.len() ==> (#[trigger] names@[l])@ == rel_name(edges@, l),
                found is None ==> edge_match_from(edges@, rel_views[t as int], 0)
                    == edge_match_from(edges@, rel_views[t as int], k as int),
                found matches Some(f) ==> f == edge_match_from(edges@, rel_views[t as int], 0) && f
                    < elen,
            decreases elen - k,
        {
            if found.is_none() && str_eq(names[k].as_str(), rels[t].as_str()) {
                proof {
                    assert(rel_name(edges@, k as int) == rel_views[t as int]);
                    assert(edge_match_from(edges@, rel_views[t as int], k as int) == k as int);
                }
                found = Some(k);
            }
            k = k + 1;
        }
        let e = match found {
            Some(f) => f,
            None => {
                proof {
                    assert(edge_match_from(edges@, rel_views[t as int], elen as int) == -1);
                    assert(joins_text(schema_ns@, table@, edges@, rel_views.skip(t as int))
                        is None);
                }
                return Err(ResolutionError::UnknownRelationField(rels[t].clone()));
            },
        };
        let ghost old_joins = joins@;
        joins.append(" JOIN ");
        joins.append(schema_ns);
        joins.append(".");
        joins.append(edges[e].referenced_table.as_str());
        joins.append(" ON ");
        joins.append(table);
        joins.append(".");
        joins.append(edges[e].local_column.as_str());
        joins.append(" = ");
        joins.append(edges[e].referenced_table.as_str());
        joins.append(".");
        joins.append(edges[e].referenced_column.as_str());
        proof {
            assert(joins@ =~= old_joins + join_clause(schema_ns@, table@, edges@[e as int]));
            let tail = joins_text(schema_ns@, table@, edges@, rel_views.skip(t + 1));
            if tail is Some {
                assert(old_joins + (join_clause(schema_ns@, table@, edges@[e as int]) + tail->0)
                    =~= joins@ + tail->0);
            }
        }
        t = t + 1;
    }
    proof {
        assert(rel_views.skip(rlen as int) =~= Seq::<Seq<char>>::empty());
    }
    // assemble the one statement: projection, source, joins, row cap
    let mut sql = String::from_str("SELECT ");
    let projection = join_with(&natives, ", ");
    sql.append(projection.as_str());
    sql.append(" FROM ");
    sql.append(schema_ns);
    sql.append(".");
    sql.append(table);
    sql.append(joins.as_str());
    sql.append(" LIMIT 100");
    proof {
        assert(sql@ =~= "SELECT "@ + join_seq(native_list(views_of(requested@)), ", "@) + " FROM "@
            + schema_ns@ + "."@ + table@ + joins@ + " LIMIT 100"@);
    }
    Ok(sql)
}

/// Keeps at most the first hundred row bags: the unconditional row cap of
/// every root list field. A result of more than a hundred rows yields
/// exactly a hundred list entries; a smaller result passes through whole.
pub fn cap_rows(rows: Vec<RowBag>) -> (r: Vec<RowBag>)
    ensures
        rows@.len() <= 100 ==> r@ == rows@,
        rows@.len() > 100 ==> r@ == rows@.subrange(0, 100),
        r@.len() == if rows@.len() <= 100 {
            rows@.len() as int
        } else {
            100
        },
{
    let mut rows = rows;
    if rows.len() > 100 {
        rows.truncate(100);
    }
    rows
}

} // verus!
