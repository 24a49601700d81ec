//! The schema synthesizer: one descriptive contract per table, one object
//! type per table implementing it — native columns first, then one relation
//! field per foreign-key edge — and the root query with one list field per
//! table. Relation field names compose the local column and the referenced
//! table; a repeated composition within a table is disambiguated with the
//! edge's position, and the names are proved pairwise distinct.

use vstd::prelude::*;

use crate::catalog::ForeignKeyEdge;
use crate::catalog::TableDescriptor;
use crate::catalog::spec_lookup_edges;
use crate::catalog::relations_for;
use crate::numeral::all_digits;
use crate::numeral::dec_digits;
use crate::numeral::lemma_dec_digits_injective;
use crate::numeral::lemma_dec_digits_val;
use crate::numeral::u64_to_dec;
use crate::scalar::ScalarKind;
use crate::scalar::col_type;
use crate::scalar::spec_col_type;
use crate::text::str_eq;
use crate::trusted::upper_of;

verus! {

/// The interface-like contract of one table: its name (the table's,
/// uppercased) and one typed field per native column, in catalog order.
/// Purely descriptive, never executed.
#[derive(Debug, Clone, PartialEq, Eq)]
pub struct InterfaceDef {
    pub name: String,
    pub fields: Vec<(String, ScalarKind)>,
}

/// What one field of an object type resolves from: a native column read
/// through the value coercer, or a foreign-key edge resolved as a join.
#[derive(Debug, Clone, PartialEq, Eq)]
pub enum FieldBinding {
    Column { native_type: String, scalar: ScalarKind },
    Relation { local_column: String, referenced_table: String, referenced_column: String },
}

/// One field of a synthesized object type.
#[derive(Debug, Clone, PartialEq, Eq)]
pub struct FieldDef {
    pub name: String,
    pub binding: FieldBinding,
}

/// The concrete object type of one table: implements the table's contract
/// and carries one field per native column plus one per foreign-key edge.
#[derive(Debug, Clone, PartialEq, Eq)]
pub struct ObjectDef {
    pub name: String,
    pub implements: String,
    pub fields: Vec<FieldDef>,
}

/// One list field of the root query object, named after its table.
#[derive(Debug, Clone, PartialEq, Eq)]
pub struct RootField {
    pub table_name: String,
}

/// Builds the descriptive contract of every table: the uppercased table
/// name, and the native columns typed through the type mapper, in catalog
/// order.
pub fn generate_table_interfaces(tables: &Vec<TableDescriptor>) -> (r: Vec<InterfaceDef>)
    ensures
        r@.len() == tables@.len(),
        forall|i: int|
            0 <= i < r@.len() ==> (#[trigger] r@[i]).name@ == upper_of(tables@[i].name@),
        forall|i: int|
            0 <= i < r@.len() ==> (#[trigger] r@[i]).fields@.len() == tables@[i].columns@.len(),
        forall|i: int, j: int|
            0 <= i < r@.len() && 0 <= j < r@[i].fields@.len() ==> ((#[trigger] r@[i].fields@[j]).0@
                == tables@[i].columns@[j].0@ && r@[i].fields@[j].1 == spec_col_type(
                tables@[i].columns@[j].1@,
            )),
{
    let mut out: Vec<InterfaceDef> = Vec::new();
    let n = tables.len();
    let mut i: usize = 0;
    while i < n
        invariant
            i <= n,
            n == tables@.len(),
            out@.len() == i,
            forall|k: int|
                0 <= k < i ==> (#[trigger] out@[k]).name@ == upper_of(tables@[k].name@),
            forall|k: int|
                0 <= k < i ==> (#[trigger] out@[k]).fields@.len() == tables@[k].columns@.len(),
            forall|k: int, j: int|
                0 <= k < i && 0 <= j < out@[k].fields@.len() ==> ((
                #[trigger] out@[k].fields@[j]).0@ == tables@[k].columns@[j].0@
                    && out@[k].fields@[j].1 == spec_col_type(tables@[k].columns@[j].1@)),
        decreases n - i,
    {
        let name = tables[i].name.as_str().to_uppercase();
        let mut fields: Vec<(String, ScalarKind)> = Vec::new();
        let m = tables[i].columns.len();
        let mut j: usize = 0;
        while j < m
            invariant
                j <= m,
                i < n,
                n == tables@.len(),
                m == tables@[i as int].columns@.len(),
                fields@.len() == j,
                forall|l: int|
                    0 <= l < j ==> ((#[trigger] fields@[l]).0@ == tables@[i as int].columns@[l].0@
                        && fields@[l].1 == spec_col_type(tables@[i as int].columns@[l].1@)),
            decreases m - j,
        {
            let col_name = tables[i].columns[j].0.clone();
            let kind = col_type(tables[i].columns[j].1.as_str());
            fields.push((col_name, kind));
            j = j + 1;
        }
        out.push(InterfaceDef { name, fields });
        i = i + 1;
    }
    out
}

/// The plain composed name of a relation field: the local column, the fixed
/// marker, the referenced table.
pub open spec fn rel_base(e: ForeignKeyEdge) -> Seq<char> {
    e.local_column@ + "_join_on_"@ + e.referenced_table@
}

/// The synthesized name of the `i`th relation field of a table: the plain
/// composition when it is the first among the table's edges to compose so,
/// and the composition with the edge's position appended otherwise — a
/// deterministic disambiguation of repeated compositions.
pub open spec fn rel_name(edges: Seq<ForeignKeyEdge>, i: int) -> Seq<char> {
    if forall|j: int| 0 <= j < i ==> rel_base(#[trigger] edges[j]) != rel_base(edges[i]) {
        rel_base(edges[i])
    } else {
        rel_base(edges[i]) + "_"@ + dec_digits(i as nat)
    }
}

/// Synthesizes the relation field names for a table's edges, in edge order.
pub fn relation_field_names(edges: &Vec<ForeignKeyEdge>) -> (names: Vec<String>)
    ensures
        names@.len() == edges@.len(),
        forall|i: int| 0 <= i < names@.len() ==> (#[trigger] names@[i])@ == rel_name(edges@, i),
{
    let mut bases: Vec<String> = Vec::new();
    let mut names: Vec<String> = Vec::new();
    let n = edges.len();
    let mut i: usize = 0;
    while i < n
        invariant
            i <= n,
            n == edges@.len(),
            bases@.len() == i,
            names@.len() == i,
            forall|j: int| 0 <= j < i ==> (#[trigger] bases@[j])@ == rel_base(edges@[j]),
            forall|j: int| 0 <= j < i ==> (#[trigger] names@[j])@ == rel_name(edges@, j),
        decreases n - i,
    {
        let mut base = edges[i].local_column.clone();
        base.append("_join_on_");
        base.append(edges[i].referenced_table.as_str());
        proof {
            assert(base@ =~= rel_base(edges@[i as int]));
        }
        let mut repeated = false;
        let mut j: usize = 0;
        while j < i
            invariant
                j <= i,
                i < n,
                n == edges@.len(),
                bases@.len() == i,
                base@ == rel_base(edges@[i as int]),
                forall|k: int| 0 <= k < i ==> (#[trigger] bases@[k])@ == rel_base(edges@[k]),
                repeated ==> exists|k: int|
                    0 <= k < i && rel_base(#[trigger] edges@[k]) == rel_base(edges@[i as int]),
                !repeated ==> forall|k: int|
                    0 <= k < j ==> rel_base(#[trigger] edges@[k]) != rel_base(edges@[i as int]),
            decreases i - j,
        {
            if str_eq(bases[j].as_str(), base.as_str()) {
                repeated = true;
            }
            j = j + 1;
        }
        let name = if !repeated {
            base.clone()
        } else {
            let mut s = base.clone();
            s.push('_');
            let digits = u64_to_dec(i as u64);
            s.append(digits.as_str());
            proof {
                reveal_strlit("_");
                assert("_"@ =~= seq!['_']);
                assert(s@ =~= rel_base(edges@[i as int]) + "_"@ + dec_digits(i as nat));
            }
            s
        };
        proof {
            assert(name@ == rel_name(edges@, i as int));
        }
        bases.push(base);
        names.push(name);
        i = i + 1;
    }
    names
}

/// `a` spells `b`, an underscore, and at least one decimal digit: the one
/// shape a plain composed name can share with a disambiguated one.
pub open spec fn digit_extension(a: Seq<char>, b: Seq<char>) -> bool {
    a.len() > b.len() + 1 && a.subrange(0, b.len() as int) == b && a[b.len() as int] == '_'
        && all_digits(a.subrange(b.len() as int + 1, a.len() as int))
}

/// No composed relation name of the table spells another composed name
/// followed by an underscore and digits; column and table names shaped like
/// a disambiguation suffix of a sibling edge are excluded.
pub open spec fn unambiguous_bases(edges: Seq<ForeignKeyEdge>) -> bool {
    forall|i: int, j: int|
        0 <= i < edges.len() && 0 <= j < edges.len() ==> !digit_extension(
            rel_base(#[trigger] edges[i]),
            rel_base(#[trigger] edges[j]),
        )
}

/// Two texts that both end in an underscore and the decimal digits of
/// distinct numbers differ, whatever they start with: were they equal, the
/// underscore of the shorter digit tail would have to be a digit of the
/// longer one.
proof fn lemma_digit_suffix_distinct(x: Seq<char>, y: Seq<char>, a: nat, b: nat)
    requires
        a != b,
    ensures
        x + "_"@ + dec_digits(a) != y + "_"@ + dec_digits(b),
{
    reveal_strlit("_");
    lemma_dec_digits_val(a);
    lemma_dec_digits_val(b);
    let da = dec_digits(a);
    let db = dec_digits(b);
    let s1 = x + "_"@ + da;
    let s2 = y + "_"@ + db;
    if s1 == s2 {
        assert(s1.len() == s2.len());
        if da.len() == db.len() {
            assert(x.len() == y.len());
            assert(da =~= db) by {
                assert forall|k: int| 0 <= k < da.len() implies da[k] == db[k] by {
                    assert(s1[x.len() + 1 + k] == da[k]);
                    assert(s2[y.len() + 1 + k] == db[k]);
                }
            }
            lemma_dec_digits_injective(a, b);
        } else if da.len() < db.len() {
            let p = s1.len() - da.len() - 1;
            assert(s1[p] == '_');
            assert(p >= s2.len() - db.len());
            assert(s2[p] == db[p - (y.len() + 1)]);
        } else {
            let p = s2.len() - db.len() - 1;
            assert(s2[p] == '_');
            assert(p >= s1.len() - da.len());
            assert(s1[p] == da[p - (x.len() + 1)]);
        }
    }
}

/// The synthesized relation field names of one table's edges are pairwise
/// distinct — in particular for a table with two or more edges targeting the
/// same referenced table — as long as no composed name of the table spells
/// another composed name plus an underscore and digits.
pub proof fn lemma_relation_names_distinct(edges: Seq<ForeignKeyEdge>, i: int, j: int)
    requires
        unambiguous_bases(edges),
        0 <= i < j < edges.len(),
    ensures
        rel_name(edges, i) != rel_name(edges, j),
{
    reveal_strlit("_");
    let bi = rel_base(edges[i]);
    let bj = rel_base(edges[j]);
    lemma_dec_digits_val(i as nat);
    lemma_dec_digits_val(j as nat);
    let i_plain = forall|k: int| 0 <= k < i ==> rel_base(#[trigger] edges[k]) != rel_base(edges[i]);
    let j_plain = forall|k: int| 0 <= k < j ==> rel_base(#[trigger] edges[k]) != rel_base(edges[j]);
    if i_plain && j_plain {
        assert(rel_base(edges[i]) != rel_base(edges[j]));
    } else if i_plain && !j_plain {
        if rel_name(edges, i) == rel_name(edges, j) {
            let s = bj + "_"@ + dec_digits(j as nat);
            assert(bi.subrange(0, bj.len() as int) =~= bj) by {
                assert forall|k: int| 0 <= k < bj.len() implies bi[k] == bj[k] by {
                    assert(s[k] == bj[k]);
                }
            }
            assert(bi[bj.len() as int] == '_') by {
                assert(s[bj.len() as int] == '_');
            }
            assert(all_digits(bi.subrange(bj.len() as int + 1, bi.len() as int))) by {
                assert(bi.subrange(bj.len() as int + 1, bi.len() as int) =~= dec_digits(j as nat));
            }
            assert(digit_extension(bi, bj));
        }
    } else if !i_plain && j_plain {
        if rel_name(edges, i) == rel_name(edges, j) {
            let s = bi + "_"@ + dec_digits(i as nat);
            assert(bj.subrange(0, bi.len() as int) =~= bi) by {
                assert forall|k: int| 0 <= k < bi.len() implies bj[k] == bi[k] by {
                    assert(s[k] == bi[k]);
                }
            }
            assert(bj[bi.len() as int] == '_') by {
                assert(s[bi.len() as int] == '_');
            }
            assert(all_digits(bj.subrange(bi.len() as int + 1, bj.len() as int))) by {
                assert(bj.subrange(bi.len() as int + 1, bj.len() as int) =~= dec_digits(i as nat));
            }
            assert(digit_extension(bj, bi));
        }
    } else {
        lemma_digit_suffix_distinct(bi, bj, i as nat, j as nat);
    }
}

/// Builds the concrete object type of every table: named after the table,
/// implementing the table's contract, with one field per native column in
/// catalog order followed by one relation field per foreign-key edge in edge
/// order. A table owning no foreign key gets no relation field at all.
pub fn generate_table_schemas(
    tables: &Vec<TableDescriptor>,
    relations: &Vec<(String, Vec<ForeignKeyEdge>)>,
) -> (r: Vec<ObjectDef>)
    ensures
        r@.len() == tables@.len(),
        forall|i: int|
            0 <= i < r@.len() ==> ((#[trigger] r@[i]).name@ == tables@[i].name@ && r@[i].implements@
                == upper_of(tables@[i].name@) && r@[i].fields@.len() == tables@[i].columns@.len()
                + spec_lookup_edges(relations@, tables@[i].name@).len()),
        forall|i: int, j: int|
            0 <= i < r@.len() && 0 <= j < tables@[i].columns@.len() ==> ((
            #[trigger] r@[i].fields@[j]).name@ == tables@[i].columns@[j].0@ && (r@[i].fields@[j].binding
                matches FieldBinding::Column { native_type, scalar } && native_type@
                == tables@[i].columns@[j].1@ && scalar == spec_col_type(
                tables@[i].columns@[j].1@,
            ))),
        forall|i: int, k: int|
            0 <= i < r@.len() && 0 <= k < spec_lookup_edges(relations@, tables@[i].name@).len()
                ==> {
                let es = spec_lookup_edges(relations@, tables@[i].name@);
                let f = #[trigger] r@[i].fields@[tables@[i].columns@.len() + k];
                f.name@ == rel_name(es, k) && (f.binding matches FieldBinding::Relation {
                    local_column,
                    referenced_table,
                    referenced_column,
                } && local_column@ == es[k].local_column@ && referenced_table@
                    == es[k].referenced_table@ && referenced_column@ == es[k].referenced_column@)
            },
        // a table with no foreign-key edge gets no relation field: absence,
        // not an empty list
        forall|i: int|
            0 <= i < r@.len() && spec_lookup_edges(relations@, tables@[i].name@).len() == 0 ==> ((
            #[trigger] r@[i]).fields@.len() == tables@[i].columns@.len() && forall|j: int|
                0 <= j < r@[i].fields@.len() ==> (#[trigger] r@[i].fields@[j]).binding is Column),
{
    let mut out: Vec<ObjectDef> = Vec::new();
    let n = tables.len();
    let mut i: usize = 0;
    while i < n
        invariant
            i <= n,
            n == tables@.len(),
            out@.len() == i,
            forall|t: int|
                0 <= t < i ==> ((#[trigger] out@[t]).name@ == tables@[t].name@
                    && out@[t].implements@ == upper_of(tables@[t].name@) && out@[t].fields@.len()
                    == tables@[t].columns@.len() + spec_lookup_edges(
                    relations@,
                    tables@[t].name@,
                ).len()),
            forall|t: int, j: int|
                0 <= t < i && 0 <= j < tables@[t].columns@.len() ==> ((
                #[trigger] out@[t].fields@[j]).name@ == tables@[t].columns@[j].0@ && (out@[t].fields@[j].binding
                    matches FieldBinding::Column { native_type, scalar } && native_type@
                    == tables@[t].columns@[j].1@ && scalar == spec_col_type(
                    tables@[t].columns@[j].1@,
                ))),
            forall|t: int, k: int|
                0 <= t < i && 0 <= k < spec_lookup_edges(relations@, tables@[t].name@).len() ==> {
                    let es = spec_lookup_edges(relations@, tables@[t].name@);
                    let f = #[trigger] out@[t].fields@[tables@[t].columns@.len() + k];
                    f.name@ == rel_name(es, k) && (f.binding matches FieldBinding::Relation {
                        local_column,
                        referenced_table,
                        referenced_column,
                    } && local_column@ == es[k].local_column@ && referenced_table@
                        == es[k].referenced_table@ && referenced_column@
                        == es[k].referenced_column@)
                },
        decreases n - i,
    {
        let table_name = tables[i].name.clone();
        let implements = tables[i].name.as_str().to_uppercase();
        let mut fields: Vec<FieldDef> = Vec::new();
        let m = tables[i].columns.len();
        let mut j: usize = 0;
        while j < m
            invariant
                j <= m,
                i < n,
                n == tables@.len(),
                m == tables@[i as int].columns@.len(),
                fields@.len() == j,
                forall|l: int|
                    0 <= l < j ==> ((#[trigger] fields@[l]).name@ == tables@[i as int].columns@[l].0@
                        && (fields@[l].binding matches FieldBinding::Column { native_type, scalar }
                        && native_type@ == tables@[i as int].columns@[l].1@ && scalar
                        == spec_col_type(tables@[i as int].columns@[l].1@))),
            decreases m - j,
        {
            let col_name = tables[i].columns[j].0.clone();
            let native_type = tables[i].columns[j].1.clone();
            let scalar = col_type(native_type.as_str());
            fields.push(FieldDef { name: col_name, binding: FieldBinding::Column { native_type, scalar } });
            j = j + 1;
        }
        let ghost col_count = tables@[i as int].columns@.len();
        match relations_for(relations, tables[i].name.as_str()) {
            Some(edges) => {
                let names = relation_field_names(edges);
                let elen = edges.len();
                let mut k: usize = 0;
                while k < elen
                    invariant
                        k <= elen,
                        i < n,
                        n == tables@.len(),
                        elen == edges@.len(),
                        names@.len() == edges@.len(),
                        edges@ == spec_lookup_edges(relations@, tables@[i as int].name@),
                        col_count == tables@[i as int].columns@.len(),
                        fields@.len() == col_count + k,
                        forall|l: int|
                            0 <= l < names@.len() ==> (#[trigger] names@[l])@ == rel_name(
                                edges@,
                                l,
                            ),
                        forall|l: int|
                            0 <= l < col_count ==> ((#[trigger] fields@[l]).name@ == tables@[
                                i as int
                            ].columns@[l].0@ && (fields@[l].binding matches FieldBinding::Column {
                                native_type,
                                scalar,
                            } && native_type@ == tables@[i as int].columns@[l].1@ && scalar
                                == spec_col_type(tables@[i as int].columns@[l].1@))),
                        forall|l: int|
                            0 <= l < k ==> {
                                let f = #[trigger] fields@[col_count + l];
                                f.name@ == rel_name(edges@, l) && (f.binding
                                    matches FieldBinding::Relation {
                                    local_column,
                                    referenced_table,
                                    referenced_column,
                                } && local_column@ == edges@[l].local_column@ && referenced_table@
                                    == edges@[l].referenced_table@ && referenced_column@
                                    == edges@[l].referenced_column@)
                            },
                    decreases elen - k,
                {
                    fields.push(
                        FieldDef {
                            name: names[k].clone(),
                            binding: FieldBinding::Relation {
                                local_column: edges[k].local_column.clone(),
                                referenced_table: edges[k].referenced_table.clone(),
                                referenced_column: edges[k].referenced_column.clone(),
                            },
                        },
                    );
                    k = k + 1;
                }
            },
            None => {},
        }
        out.push(ObjectDef { name: table_name, implements, fields });
        i = i + 1;
    }
    out
}

/// Builds the root query object's fields: one list field per table, named
/// after the table, in catalog order.
pub fn generate_query_root(tables: &Vec<TableDescriptor>) -> (r: Vec<RootField>)
    ensures
        r@.len() == tables@.len(),
        forall|i: int|
            0 <= i < r@.len() ==> (#[trigger] r@[i]).table_name@ == tables@[i].name@,
{
    let mut out: Vec<RootField> = Vec::new();
    let n = tables.len();
    let mut i: usize = 0;
    while i < n
        invariant
            i <= n,
            n == tables@.len(),
            out@.len() == i,
            forall|k: int|
                0 <= k < i ==> (#[trigger] out@[k]).table_name@ == tables@[k].name@,
        decreases n - i,
    {
        out.push(RootField { table_name: tables[i].name.clone() });
        i = i + 1;
    }
    out
}

} // verus!
