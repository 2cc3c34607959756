//! Small collection utilities: transposing a rectangular table and
//! splitting a list into its head and tail.

use vstd::prelude::*;

verus! {

/// Why a table could not be transposed.
#[derive(Debug)]
pub enum TransposeError {
    /// The rows do not all have the same width; the widths are listed.
    JaggedColumns(Vec<usize>),
    /// There are no rows at all.
    EmptyInputCollection,
}

/// A list split into its first element and the rest.
#[derive(Debug)]
pub enum FirstAndRest<T> {
    Both(T, Vec<T>),
    OnlyFirst(T),
    Neither,
}

/// Splits a list into its first element and the remaining elements.
pub fn vec_first_and_rest<T>(vec: Vec<T>) -> (r: FirstAndRest<T>)
    ensures
        vec@.len() == 0 ==> r is Neither,
        vec@.len() == 1 ==> (r matches FirstAndRest::OnlyFirst(f) && f == vec@[0]),
        vec@.len() >= 2 ==> (r matches FirstAndRest::Both(f, rest)
            && (f == vec@[0] && rest@ == vec@.subrange(1, vec@.len() as int))),
{
    let mut vec = vec;
    if vec.len() == 0 {
        FirstAndRest::Neither
    } else if vec.len() == 1 {
        let first = vec.remove(0);
        FirstAndRest::OnlyFirst(first)
    } else {
        let first = vec.remove(0);
        FirstAndRest::Both(first, vec)
    }
}

/// Whether a table is rectangular: every row as wide as the first.
pub open spec fn rectangular<T>(rows: Seq<Seq<T>>) -> bool {
    forall|i: int| 0 <= i < rows.len() ==> (#[trigger] rows[i]).len() == rows[0].len()
}

/// The views of a table's rows.
pub open spec fn row_views<T>(rows: Seq<Vec<T>>) -> Seq<Seq<T>> {
    rows.map(|i: int, r: Vec<T>| r@)
}

/// Transposes a rectangular table of rows into its columns.  Fails
/// exactly when the table has no rows or its rows differ in width.
pub fn transpose<T>(rows: Vec<Vec<T>>) -> (r: Result<Vec<Vec<T>>, TransposeError>)
    ensures
        r is Ok <==> row_views(rows@).len() > 0 && rectangular(row_views(rows@)),
        r matches Ok(cols) ==> {
            &&& cols@.len() == rows@[0]@.len()
            &&& forall|j: int| 0 <= j < cols@.len()
                ==> (#[trigger] cols@[j])@.len() == rows@.len()
            &&& forall|i: int, j: int| 0 <= i < rows@.len() && 0 <= j < cols@.len()
                ==> (#[trigger] cols@[j]@[i]) == rows@[i]@[j]
        },
        r matches Err(e) ==> (e is EmptyInputCollection && rows@.len() == 0)
            || (e matches TransposeError::JaggedColumns(ws)
                && (!rectangular(row_views(rows@))
                    && ws@.len() == rows@.len()
                    && forall|i: int| 0 <= i < ws@.len()
                        ==> (#[trigger] ws@[i]) == rows@[i]@.len())),
{
    let ghost orig = rows@;
    let h = rows.len();
    if h == 0 {
        return Err(TransposeError::EmptyInputCollection);
    }
    let w = rows[0].len();
    let mut jagged = false;
    let mut widths: Vec<usize> = Vec::new();
    let mut i: usize = 0;
    while i < h
        invariant
            h == rows@.len(),
            rows@ == orig,
            w == rows@[0]@.len(),
            i <= h,
            widths@.len() == i,
            forall|k: int| 0 <= k < i ==> (#[trigger] widths@[k]) == rows@[k]@.len(),
            jagged <==> exists|k: int| 0 <= k < i && (#[trigger] rows@[k])@.len() != w,
        decreases h - i,
    {
        let len_i = rows[i].len();
        widths.push(len_i);
        if len_i != w {
            jagged = true;
        }
        i = i + 1;
    }
    if jagged {
        proof {
            let k = choose|k: int| 0 <= k < h && (#[trigger] rows@[k])@.len() != w;
            assert(row_views(rows@)[k].len() != row_views(rows@)[0].len());
        }
        return Err(TransposeError::JaggedColumns(widths));
    }
    proof {
        assert forall|i: int| 0 <= i < row_views(rows@).len()
            implies (#[trigger] row_views(rows@)[i]).len() == row_views(rows@)[0].len() by {
            assert(row_views(rows@)[i] == rows@[i]@);
        }
    }
    // Move the elements column by column; each row loses its leading
    // element once per column.
    let mut rows = rows;
    let mut cols: Vec<Vec<T>> = Vec::new();
    let mut j: usize = 0;
    while j < w
        invariant
            h == rows@.len(),
            h == orig.len(),
            h > 0,
            w == orig[0]@.len(),
            forall|k: int| 0 <= k < h ==> (#[trigger] orig[k])@.len() == w,
            j <= w,
            cols@.len() == j,
            forall|k: int| 0 <= k < h
                ==> (#[trigger] rows@[k])@ == orig[k]@.subrange(j as int, w as int),
            forall|c: int| 0 <= c < j ==> (#[trigger] cols@[c])@.len() == h,
            forall|c: int, k: int| 0 <= c < j && 0 <= k < h
                ==> (#[trigger] cols@[c]@[k]) == orig[k]@[c],
        decreases w - j,
    {
        let mut col: Vec<T> = Vec::new();
        let mut i: usize = 0;
        while i < h
            invariant
                h == rows@.len(),
                h == orig.len(),
                w == orig[0]@.len(),
                forall|k: int| 0 <= k < h ==> (#[trigger] orig[k])@.len() == w,
                j < w,
                i <= h,
                col@.len() == i,
                forall|k: int| 0 <= k < i
                    ==> (#[trigger] rows@[k])@ == orig[k]@.subrange(j + 1, w as int),
                forall|k: int| i <= k < h
                    ==> (#[trigger] rows@[k])@ == orig[k]@.subrange(j as int, w as int),
                forall|k: int| 0 <= k < i ==> (#[trigger] col@[k]) == orig[k]@[j as int],
            decreases h - i,
        {
            let mut row = rows.remove(i);
            let x = row.remove(0);
            rows.insert(i, row);
            proof {
                assert(orig[i as int]@.subrange(j as int, w as int)[0] == orig[i as int]@[j as int]);
                assert(orig[i as int]@.subrange(j as int, w as int)
                    .subrange(1, (w - j) as int) =~= orig[i as int]@.subrange(j + 1, w as int));
            }
            col.push(x);
            i = i + 1;
        }
        cols.push(col);
        j = j + 1;
    }
    Ok(cols)
}

} // verus!
