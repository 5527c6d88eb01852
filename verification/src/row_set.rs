//! The decoded result set: an ordered column-name sequence and a row-major
//! matrix of decoded cells, every row exactly as long as the column list.
//! Two serialization views exist: a positional array of value arrays, and a
//! read-only wrapping view that renders each row as an object keyed by the
//! column names.

use crate::db_value::{spec_decode_row, spec_value_json, DbValue, NativeRow};
use crate::textfmt::{append_json_string, push_char, spec_json_string};
use vstd::prelude::*;

verus! {

/// A decoded result set. Column names come from the first native row; a
/// result with no rows has an empty column list.
#[derive(Debug, Clone, PartialEq, Eq)]
pub struct RowSet {
    pub columns: Vec<String>,
    pub rows: Vec<Vec<DbValue>>,
}

impl RowSet {
    /// Every row is aligned with the column list and every cell is a sound
    /// decoded value.
    pub open spec fn wf(self) -> bool {
        &&& forall|i: int|
            0 <= i < self.rows@.len() ==> (#[trigger] self.rows@[i])@.len() == self.columns@.len()
        &&& forall|i: int, j: int|
            0 <= i < self.rows@.len() && 0 <= j < self.rows@[i]@.len() ==> (
            #[trigger] self.rows@[i]@[j]).wf()
    }
}

/// The JSON body joining one row's cells with commas.
pub open spec fn spec_row_json_body(vals: Seq<DbValue>) -> Seq<char>
    decreases vals.len(),
{
    if vals.len() == 0 {
        Seq::empty()
    } else if vals.len() == 1 {
        spec_value_json(vals[0])
    } else {
        spec_value_json(vals[0]) + seq![','] + spec_row_json_body(vals.drop_first())
    }
}

/// One row as a JSON array of its cells.
pub open spec fn spec_row_json(vals: Seq<DbValue>) -> Seq<char> {
    seq!['['] + spec_row_json_body(vals) + seq![']']
}

/// The JSON body joining whole rows with commas.
pub open spec fn spec_rows_json_body(rows: Seq<Vec<DbValue>>) -> Seq<char>
    decreases rows.len(),
{
    if rows.len() == 0 {
        Seq::empty()
    } else if rows.len() == 1 {
        spec_row_json(rows[0]@)
    } else {
        spec_row_json(rows[0]@) + seq![','] + spec_rows_json_body(rows.drop_first())
    }
}

/// The positional serialization view: an array of value arrays.
pub open spec fn spec_rowset_json(rs: RowSet) -> Seq<char> {
    seq!['['] + spec_rows_json_body(rs.rows@) + seq![']']
}

/// The JSON body of one row as an object: column names paired with cells.
pub open spec fn spec_object_json_body(cols: Seq<Seq<char>>, vals: Seq<DbValue>) -> Seq<char>
    decreases vals.len(),
{
    if vals.len() == 0 {
        Seq::empty()
    } else if vals.len() == 1 {
        spec_json_string(cols[0]) + seq![':'] + spec_value_json(vals[0])
    } else {
        spec_json_string(cols[0]) + seq![':'] + spec_value_json(vals[0]) + seq![',']
            + spec_object_json_body(cols.drop_first(), vals.drop_first())
    }
}

/// One row as a JSON object keyed by the column names.
pub open spec fn spec_object_json(cols: Seq<Seq<char>>, vals: Seq<DbValue>) -> Seq<char> {
    seq!['{'] + spec_object_json_body(cols, vals) + seq!['}']
}

/// The JSON body joining the object renderings of whole rows with commas.
pub open spec fn spec_objects_json_body(cols: Seq<Seq<char>>, rows: Seq<Vec<DbValue>>) -> Seq<char>
    decreases rows.len(),
{
    if rows.len() == 0 {
        Seq::empty()
    } else if rows.len() == 1 {
        spec_object_json(cols, rows[0]@)
    } else {
        spec_object_json(cols, rows[0]@) + seq![','] + spec_objects_json_body(
            cols,
            rows.drop_first(),
        )
    }
}

/// The object serialization view: an array of objects, one per row.
pub open spec fn spec_rowset_objects_json(rs: RowSet) -> Seq<char> {
    seq!['['] + spec_objects_json_body(
        rs.columns@.map_values(|c: String| c@),
        rs.rows@,
    ) + seq![']']
}

proof fn lemma_row_json_body_push(vals: Seq<DbValue>, v: DbValue)
    ensures
        spec_row_json_body(vals.push(v)) == if vals.len() == 0 {
            spec_value_json(v)
        } else {
            spec_row_json_body(vals) + seq![','] + spec_value_json(v)
        },
    decreases vals.len(),
{
    if vals.len() == 0 {
        assert(vals.push(v)[0] == v);
    } else {
        lemma_row_json_body_push(vals.drop_first(), v);
        assert(vals.push(v).drop_first() =~= vals.drop_first().push(v));
        assert(vals.push(v)[0] == vals[0]);
        if vals.len() == 1 {
            assert(spec_row_json_body(vals.push(v)) =~= spec_row_json_body(vals) + seq![',']
                + spec_value_json(v));
        } else {
            assert(spec_value_json(vals[0]) + seq![','] + (spec_row_json_body(vals.drop_first())
                + seq![','] + spec_value_json(v)) =~= (spec_value_json(vals[0]) + seq![',']
                + spec_row_json_body(vals.drop_first())) + seq![','] + spec_value_json(v));
        }
    }
}

proof fn lemma_rows_json_body_push(rows: Seq<Vec<DbValue>>, r: Vec<DbValue>)
    ensures
        spec_rows_json_body(rows.push(r)) == if rows.len() == 0 {
            spec_row_json(r@)
        } else {
            spec_rows_json_body(rows) + seq![','] + spec_row_json(r@)
        },
    decreases rows.len(),
{
    if rows.len() == 0 {
        assert(rows.push(r)[0] == r);
    } else {
        lemma_rows_json_body_push(rows.drop_first(), r);
        assert(rows.push(r).drop_first() =~= rows.drop_first().push(r));
        assert(rows.push(r)[0] == rows[0]);
        if rows.len() == 1 {
            assert(spec_rows_json_body(rows.push(r)) =~= spec_rows_json_body(rows) + seq![',']
                + spec_row_json(r@));
        } else {
            assert(spec_row_json(rows[0]@) + seq![','] + (spec_rows_json_body(rows.drop_first())
                + seq![','] + spec_row_json(r@)) =~= (spec_row_json(rows[0]@) + seq![',']
                + spec_rows_json_body(rows.drop_first())) + seq![','] + spec_row_json(r@));
        }
    }
}

proof fn lemma_object_json_body_push(
    cols: Seq<Seq<char>>,
    vals: Seq<DbValue>,
    c: Seq<char>,
    v: DbValue,
)
    requires
        cols.len() == vals.len(),
    ensures
        spec_object_json_body(cols.push(c), vals.push(v)) == if vals.len() == 0 {
            spec_json_string(c) + seq![':'] + spec_value_json(v)
        } else {
            spec_object_json_body(cols, vals) + seq![','] + spec_json_string(c) + seq![':']
                + spec_value_json(v)
        },
    decreases vals.len(),
{
    if vals.len() == 0 {
        assert(vals.push(v)[0] == v);
        assert(cols.push(c)[0] == c);
    } else {
        lemma_object_json_body_push(cols.drop_first(), vals.drop_first(), c, v);
        assert(vals.push(v).drop_first() =~= vals.drop_first().push(v));
        assert(cols.push(c).drop_first() =~= cols.drop_first().push(c));
        assert(vals.push(v)[0] == vals[0]);
        assert(cols.push(c)[0] == cols[0]);
        let entry = spec_json_string(c) + seq![':'] + spec_value_json(v);
        let head = spec_json_string(cols[0]) + seq![':'] + spec_value_json(vals[0]);
        if vals.len() == 1 {
            assert(spec_object_json_body(cols.push(c), vals.push(v)) =~= spec_object_json_body(
                cols,
                vals,
            ) + seq![','] + entry);
        } else {
            assert(head + seq![','] + (spec_object_json_body(cols.drop_first(), vals.drop_first())
                + seq![','] + entry) =~= (head + seq![','] + spec_object_json_body(
                cols.drop_first(),
                vals.drop_first(),
            )) + seq![','] + entry);
            assert(spec_object_json_body(cols.push(c), vals.push(v)) =~= spec_object_json_body(
                cols,
                vals,
            ) + seq![','] + entry);
        }
    }
}

proof fn lemma_objects_json_body_push(cols: Seq<Seq<char>>, rows: Seq<Vec<DbValue>>, r: Vec<
    DbValue,
>)
    ensures
        spec_objects_json_body(cols, rows.push(r)) == if rows.len() == 0 {
            spec_object_json(cols, r@)
        } else {
            spec_objects_json_body(cols, rows) + seq![','] + spec_object_json(cols, r@)
        },
    decreases rows.len(),
{
    if rows.len() == 0 {
        assert(rows.push(r)[0] == r);
    } else {
        lemma_objects_json_body_push(cols, rows.drop_first(), r);
        assert(rows.push(r).drop_first() =~= rows.drop_first().push(r));
        assert(rows.push(r)[0] == rows[0]);
        if rows.len() == 1 {
            assert(spec_objects_json_body(cols, rows.push(r)) =~= spec_objects_json_body(
                cols,
                rows,
            ) + seq![','] + spec_object_json(cols, r@));
        } else {
            assert(spec_object_json(cols, rows[0]@) + seq![','] + (spec_objects_json_body(
                cols,
                rows.drop_first(),
            ) + seq![','] + spec_object_json(cols, r@)) =~= (spec_object_json(cols, rows[0]@)
                + seq![','] + spec_objects_json_body(cols, rows.drop_first())) + seq![',']
                + spec_object_json(cols, r@));
        }
    }
}

fn append_row_json(out: &mut String, vals: &Vec<DbValue>)
    requires
        forall|j: int| 0 <= j < vals@.len() ==> (#[trigger] vals@[j]).wf(),
    ensures
        final(out)@ == old(out)@ + spec_row_json(vals@),
{
    let ghost orig: Seq<char> = out@;
    push_char(out, '[');
    let n: usize = vals.len();
    let mut i: usize = 0;
    while i < n
        invariant
            i <= n,
            n == vals@.len(),
            forall|j: int| 0 <= j < vals@.len() ==> (#[trigger] vals@[j]).wf(),
            out@ == orig.push('[') + spec_row_json_body(vals@.take(i as int)),
        decreases n - i,
    {
        if i > 0 {
            push_char(out, ',');
        }
        vals[i].append_json(out);
        proof {
            lemma_row_json_body_push(vals@.take(i as int), vals@[i as int]);
            assert(vals@.take(i as int).push(vals@[i as int]) =~= vals@.take(i + 1 as int));
            assert(out@ =~= orig.push('[') + spec_row_json_body(vals@.take(i + 1 as int)));
        }
        i = i + 1;
    }
    push_char(out, ']');
    proof {
        assert(vals@.take(n as int) =~= vals@);
        assert(out@ =~= orig + spec_row_json(vals@));
    }
}

fn append_object_json(out: &mut String, cols: &Vec<String>, vals: &Vec<DbValue>)
    requires
        cols@.len() == vals@.len(),
        forall|j: int| 0 <= j < vals@.len() ==> (#[trigger] vals@[j]).wf(),
    ensures
        final(out)@ == old(out)@ + spec_object_json(cols@.map_values(|c: String| c@), vals@),
{
    let ghost orig: Seq<char> = out@;
    let ghost colviews: Seq<Seq<char>> = cols@.map_values(|c: String| c@);
    push_char(out, '{');
    let n: usize = vals.len();
    let mut i: usize = 0;
    while i < n
        invariant
            i <= n,
            n == vals@.len(),
            cols@.len() == vals@.len(),
            colviews == cols@.map_values(|c: String| c@),
            forall|j: int| 0 <= j < vals@.len() ==> (#[trigger] vals@[j]).wf(),
            out@ == orig.push('{') + spec_object_json_body(
                colviews.take(i as int),
                vals@.take(i as int),
            ),
        decreases n - i,
    {
        if i > 0 {
            push_char(out, ',');
        }
        append_json_string(out, cols[i].as_str());
        push_char(out, ':');
        vals[i].append_json(out);
        proof {
            lemma_object_json_body_push(
                colviews.take(i as int),
                vals@.take(i as int),
                colviews[i as int],
                vals@[i as int],
            );
            assert(colviews.take(i as int).push(colviews[i as int]) =~= colviews.take(
                i + 1 as int,
            ));
            assert(vals@.take(i as int).push(vals@[i as int]) =~= vals@.take(i + 1 as int));
            assert(out@ =~= orig.push('{') + spec_object_json_body(
                colviews.take(i + 1 as int),
                vals@.take(i + 1 as int),
            ));
        }
        i = i + 1;
    }
    push_char(out, '}');
    proof {
        assert(colviews.take(n as int) =~= colviews);
        assert(vals@.take(n as int) =~= vals@);
        assert(out@ =~= orig + spec_object_json(colviews, vals@));
    }
}

impl RowSet {
    /// Builds the result set from the native rows: column names from the
    /// first row (none means no columns), every row decoded independently.
    /// The rows are consumed; their scalars move into the decoded cells.
    pub fn from_pg_rows(rows: Vec<NativeRow>) -> (r: RowSet)
        requires
            forall|i: int| 0 <= i < rows@.len() ==> (#[trigger] rows@[i]).wf(),
            forall|i: int|
                0 <= i < rows@.len() ==> (#[trigger] rows@[i]).columns@.len()
                    == rows@[0].columns@.len(),
        ensures
            r.columns@.len() == if rows@.len() == 0 {
                0int
            } else {
                rows@[0].columns@.len() as int
            },
            forall|j: int|
                0 <= j < r.columns@.len() ==> r.columns@[j] == rows@[0].columns@[j].name,
            r.rows@.len() == rows@.len(),
            forall|i: int| 0 <= i < rows@.len() ==> (#[trigger] r.rows@[i])@ == spec_decode_row(
                rows@[i],
            ),
            r.wf(),
    {
        let mut columns: Vec<String> = Vec::new();
        if rows.len() > 0 {
            let m: usize = rows[0].columns.len();
            let mut j: usize = 0;
            while j < m
                invariant
                    j <= m,
                    m == rows@[0].columns@.len(),
                    rows@.len() > 0,
                    columns@.len() == j,
                    forall|k: int| 0 <= k < j ==> columns@[k] == rows@[0].columns@[k].name,
                decreases m - j,
            {
                columns.push(rows[0].columns[j].name.clone());
                j = j + 1;
            }
        }
        let ghost grows: Seq<NativeRow> = rows@;
        let mut remaining: Vec<NativeRow> = rows;
        let mut decoded: Vec<Vec<DbValue>> = Vec::new();
        let n: usize = remaining.len();
        let mut i: usize = 0;
        while i < n
            invariant
                i <= n,
                n == grows.len(),
                remaining@ == grows.skip(i as int),
                forall|k: int| 0 <= k < grows.len() ==> (#[trigger] grows[k]).wf(),
                decoded@.len() == i,
                forall|k: int|
                    0 <= k < i ==> (#[trigger] decoded@[k])@ == spec_decode_row(grows[k]),
            decreases n - i,
        {
            let row: NativeRow = remaining.remove(0);
            proof {
                assert(row == grows[i as int]);
                assert(remaining@ =~= grows.skip(i + 1 as int));
            }
            let cells = DbValue::decode_row(row);
            decoded.push(cells);
            i = i + 1;
        }
        let r = RowSet { columns, rows: decoded };
        proof {
            assert forall|i2: int, j2: int|
                0 <= i2 < r.rows@.len() && 0 <= j2 < r.rows@[i2]@.len() implies (
            #[trigger] r.rows@[i2]@[j2]).wf() by {
                assert(r.rows@[i2]@ == spec_decode_row(grows[i2]));
            }
        }
        r
    }

    /// The read-only object view of this result set.
    pub fn as_objects(&self) -> (r: RowSetAsObjects<'_>)
        ensures
            r.0 == self,
    {
        RowSetAsObjects(self)
    }

    /// Serializes the positional view: a JSON array of value arrays.
    pub fn to_json(&self) -> (r: String)
        requires
            self.wf(),
        ensures
            r@ == spec_rowset_json(*self),
    {
        let mut out = String::new();
        push_char(&mut out, '[');
        let n: usize = self.rows.len();
        let mut i: usize = 0;
        while i < n
            invariant
                i <= n,
                n == self.rows@.len(),
                self.wf(),
                out@ == Seq::<char>::empty().push('[') + spec_rows_json_body(
                    self.rows@.take(i as int),
                ),
            decreases n - i,
        {
            if i > 0 {
                push_char(&mut out, ',');
            }
            append_row_json(&mut out, &self.rows[i]);
            proof {
                lemma_rows_json_body_push(self.rows@.take(i as int), self.rows@[i as int]);
                assert(self.rows@.take(i as int).push(self.rows@[i as int]) =~= self.rows@.take(
                    i + 1 as int,
                ));
                assert(out@ =~= Seq::<char>::empty().push('[') + spec_rows_json_body(
                    self.rows@.take(i + 1 as int),
                ));
            }
            i = i + 1;
        }
        push_char(&mut out, ']');
        proof {
            assert(self.rows@.take(n as int) =~= self.rows@);
            assert(out@ =~= spec_rowset_json(*self));
        }
        out
    }
}

/// A read-only wrapping view that serializes each row as an object keyed by
/// the column names. The result set itself is not touched.
#[derive(Debug)]
pub struct RowSetAsObjects<'a>(pub &'a RowSet);

impl<'a> RowSetAsObjects<'a> {
    /// Serializes the object view: a JSON array of objects.
    pub fn to_json(&self) -> (r: String)
        requires
            self.0.wf(),
        ensures
            r@ == spec_rowset_objects_json(*self.0),
    {
        let rs: &RowSet = self.0;
        let ghost colviews: Seq<Seq<char>> = rs.columns@.map_values(|c: String| c@);
        let mut out = String::new();
        push_char(&mut out, '[');
        let n: usize = rs.rows.len();
        let mut i: usize = 0;
        while i < n
            invariant
                i <= n,
                n == rs.rows@.len(),
                rs.wf(),
                rs == self.0,
                colviews == rs.columns@.map_values(|c: String| c@),
                out@ == Seq::<char>::empty().push('[') + spec_objects_json_body(
                    colviews,
                    rs.rows@.take(i as int),
                ),
            decreases n - i,
        {
            if i > 0 {
                push_char(&mut out, ',');
            }
            append_object_json(&mut out, &rs.columns, &rs.rows[i]);
            proof {
                lemma_objects_json_body_push(colviews, rs.rows@.take(i as int), rs.rows@[i as int]);
                assert(rs.rows@.take(i as int).push(rs.rows@[i as int]) =~= rs.rows@.take(
                    i + 1 as int,
                ));
                assert(out@ =~= Seq::<char>::empty().push('[') + spec_objects_json_body(
                    colviews,
                    rs.rows@.take(i + 1 as int),
                ));
            }
            i = i + 1;
        }
        push_char(&mut out, ']');
        proof {
            assert(rs.rows@.take(n as int) =~= rs.rows@);
            assert(out@ =~= spec_rowset_objects_json(*self.0));
        }
        out
    }
}

} // verus!
