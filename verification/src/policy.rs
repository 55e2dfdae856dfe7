//! The door-sensor polling policy: locating named columns, reading
//! positionally aligned row fields, ordering rows by recency, and
//! deciding which HVAC mode an update call should set.

use vstd::prelude::*;

use crate::report::{RuntimeSensorMetadata, RuntimeSensorReport};
use crate::text::{
    field_at,
    lemma_lex_le_antisym,
    lemma_lex_le_total,
    lemma_lex_le_trans,
    lex_le,
    split_on,
    split_str,
    str_eq,
    str_le,
};

verus! {

/// The views of a sequence of strings.
pub open spec fn string_views(ss: Seq<String>) -> Seq<Seq<char>> {
    ss.map_values(|s: String| s@)
}

/// The first index at which `name` occurs in `cols`, or -1 when it does
/// not occur.
pub open spec fn col_index(cols: Seq<Seq<char>>, name: Seq<char>) -> int
    decreases cols.len(),
{
    if cols.len() == 0 {
        -1
    } else if cols[0] == name {
        0
    } else {
        let r = col_index(cols.drop_first(), name);
        if r < 0 {
            -1
        } else {
            r + 1
        }
    }
}

proof fn lemma_col_index_found(cols: Seq<Seq<char>>, name: Seq<char>, k: int)
    requires
        0 <= k < cols.len(),
        cols[k] == name,
        forall|j: int| 0 <= j < k ==> cols[j] != name,
    ensures
        col_index(cols, name) == k,
    decreases cols.len(),
{
    if k > 0 {
        lemma_col_index_found(cols.drop_first(), name, k - 1);
    }
}

proof fn lemma_col_index_absent(cols: Seq<Seq<char>>, name: Seq<char>)
    requires
        forall|j: int| 0 <= j < cols.len() ==> cols[j] != name,
    ensures
        col_index(cols, name) == -1,
    decreases cols.len(),
{
    if cols.len() > 0 {
        lemma_col_index_absent(cols.drop_first(), name);
    }
}

/// Finds the position of the column called `name`, scanning from the
/// front, exactly as row fields are located by position.
pub fn find_column(columns: &Vec<String>, name: &str) -> (r: Option<usize>)
    ensures
        match r {
            Some(k) => {
                &&& k < columns@.len()
                &&& columns@[k as int]@ == name@
                &&& forall|j: int| 0 <= j < k ==> columns@[j]@ != name@
                &&& col_index(string_views(columns@), name@) == k as int
            },
            None => {
                &&& forall|j: int| 0 <= j < columns@.len() ==> columns@[j]@ != name@
                &&& col_index(string_views(columns@), name@) == -1
            },
        },
{
    let n = columns.len();
    let mut i: usize = 0;
    while i < n
        invariant
            i <= n,
            n == columns@.len(),
            forall|j: int| 0 <= j < i ==> columns@[j]@ != name@,
        decreases n - i,
    {
        if str_eq(columns[i].as_str(), name) {
            proof {
                lemma_col_index_found(string_views(columns@), name@, i as int);
            }
            return Some(i);
        }
        i = i + 1;
    }
    proof {
        lemma_col_index_absent(string_views(columns@), name@);
    }
    None
}

/// The `k`-th comma-separated field of `row`, or `None` when the row has
/// too few fields.
pub fn nth_field(row: &str, k: usize) -> (r: Option<String>)
    ensures
        match r {
            Some(f) => k < split_on(row@, ',').len() && f@ == split_on(row@, ',')[k as int],
            None => k >= split_on(row@, ',').len(),
        },
{
    let parts = split_str(row, ',');
    if k < parts.len() {
        Some(parts[k].clone())
    } else {
        None
    }
}

/// The `k`-th comma-separated field of `row`, reading an absent field as
/// empty.
pub fn field_or_empty(row: &str, k: usize) -> (r: String)
    ensures
        r@ == field_at(row@, ',', k as int),
{
    match nth_field(row, k) {
        Some(f) => f,
        None => String::new(),
    }
}

/// The field at position `k` of the first row that has a non-empty field
/// there.
pub open spec fn first_nonempty(rows: Seq<Seq<char>>, k: int) -> Option<Seq<char>>
    decreases rows.len(),
{
    if rows.len() == 0 {
        None
    } else if field_at(rows[0], ',', k).len() > 0 {
        Some(field_at(rows[0], ',', k))
    } else {
        first_nonempty(rows.drop_first(), k)
    }
}

/// Scans the rows in order for the first non-empty field at position `k`.
pub fn first_nonempty_field(rows: &Vec<String>, k: usize) -> (r: Option<String>)
    ensures
        match r {
            Some(f) => first_nonempty(string_views(rows@), k as int) == Some(f@),
            None => first_nonempty(string_views(rows@), k as int) is None,
        },
{
    let n = rows.len();
    let mut i: usize = 0;
    proof {
        assert(string_views(rows@).skip(0) =~= string_views(rows@));
    }
    while i < n
        invariant
            i <= n,
            n == rows@.len(),
            first_nonempty(string_views(rows@), k as int) == first_nonempty(
                string_views(rows@).skip(i as int),
                k as int,
            ),
        decreases n - i,
    {
        let f = field_or_empty(rows[i].as_str(), k);
        proof {
            assert(string_views(rows@).skip(i as int)[0] == rows@[i as int]@);
            assert(string_views(rows@).skip(i as int).drop_first() =~= string_views(rows@).skip(
                i + 1 as int,
            ));
        }
        if f.unicode_len() > 0 {
            return Some(f);
        }
        i = i + 1;
    }
    proof {
        assert(string_views(rows@).skip(n as int) =~= Seq::<Seq<char>>::empty());
    }
    None
}

/// Row `a` sorts no later than row `b`: strictly later date first, then
/// later or equal time.  Dates and times are the comma-separated fields
/// at positions `di` and `ti`.
pub open spec fn row_le(a: Seq<char>, b: Seq<char>, di: int, ti: int) -> bool {
    let da = field_at(a, ',', di);
    let db = field_at(b, ',', di);
    let ta = field_at(a, ',', ti);
    let tb = field_at(b, ',', ti);
    (lex_le(db, da) && db != da) || (da == db && lex_le(tb, ta))
}

/// The recency order is total.
pub proof fn lemma_row_le_total(a: Seq<char>, b: Seq<char>, di: int, ti: int)
    ensures
        row_le(a, b, di, ti) || row_le(b, a, di, ti),
{
    let da = field_at(a, ',', di);
    let db = field_at(b, ',', di);
    lemma_lex_le_total(da, db);
    lemma_lex_le_total(field_at(a, ',', ti), field_at(b, ',', ti));
    if lex_le(da, db) && lex_le(db, da) {
        lemma_lex_le_antisym(da, db);
    }
}

/// The recency order is transitive.
pub proof fn lemma_row_le_trans(a: Seq<char>, b: Seq<char>, c: Seq<char>, di: int, ti: int)
    requires
        row_le(a, b, di, ti),
        row_le(b, c, di, ti),
    ensures
        row_le(a, c, di, ti),
{
    let da = field_at(a, ',', di);
    let db = field_at(b, ',', di);
    let dc = field_at(c, ',', di);
    if db != da && dc != db {
        lemma_lex_le_trans(dc, db, da);
        if dc == da {
            lemma_lex_le_antisym(db, da);
        }
    }
    if da == db && db == dc {
        lemma_lex_le_trans(
            field_at(c, ',', ti),
            field_at(b, ',', ti),
            field_at(a, ',', ti),
        );
    }
}

/// Inserts `row` into an already sorted sequence, after every row that
/// sorts no later than it.
pub open spec fn insert_sorted(s: Seq<Seq<char>>, row: Seq<char>, di: int, ti: int) -> Seq<
    Seq<char>,
>
    decreases s.len(),
{
    if s.len() == 0 {
        seq![row]
    } else if row_le(s[0], row, di, ti) {
        seq![s[0]] + insert_sorted(s.drop_first(), row, di, ti)
    } else {
        seq![row] + s
    }
}

/// Sorting by recency: rows are inserted one by one, in input order, so
/// rows with equal keys keep their input order.
pub open spec fn sort_rows_spec(rows: Seq<Seq<char>>, di: int, ti: int) -> Seq<Seq<char>>
    decreases rows.len(),
{
    if rows.len() == 0 {
        Seq::empty()
    } else {
        insert_sorted(sort_rows_spec(rows.drop_last(), di, ti), rows.last(), di, ti)
    }
}

/// When the first `pos` rows sort no later than `row` and the row at
/// `pos` (if any) does not, insertion lands exactly at `pos`.
proof fn lemma_insert_sorted_split(s: Seq<Seq<char>>, row: Seq<char>, di: int, ti: int, pos: int)
    requires
        0 <= pos <= s.len(),
        forall|j: int| 0 <= j < pos ==> row_le(s[j], row, di, ti),
        pos < s.len() ==> !row_le(s[pos], row, di, ti),
    ensures
        insert_sorted(s, row, di, ti) =~~= s.take(pos) + seq![row] + s.skip(pos),
    decreases s.len(),
{
    if pos == 0 {
        if s.len() > 0 {
            assert(s.take(0) =~= Seq::<Seq<char>>::empty());
        }
    } else {
        let d = s.drop_first();
        lemma_insert_sorted_split(d, row, di, ti, pos - 1);
        assert(d.take(pos - 1) =~= s.take(pos).drop_first());
        assert(d.skip(pos - 1) =~= s.skip(pos));
    }
}

/// Every row of a sorted sequence sorts no later than those after it.
pub open spec fn rows_sorted(s: Seq<Seq<char>>, di: int, ti: int) -> bool {
    forall|i: int, j: int| 0 <= i <= j < s.len() ==> row_le(s[i], s[j], di, ti)
}

/// Insertion preserves sortedness and adds exactly the new row.
proof fn lemma_insert_sorted_props(s: Seq<Seq<char>>, row: Seq<char>, di: int, ti: int)
    requires
        rows_sorted(s, di, ti),
    ensures
        insert_sorted(s, row, di, ti).len() == s.len() + 1,
        rows_sorted(insert_sorted(s, row, di, ti), di, ti),
        insert_sorted(s, row, di, ti).to_multiset() == s.to_multiset().insert(row),
    decreases s.len(),
{
    broadcast use vstd::seq_lib::group_to_multiset_ensures;

    let out = insert_sorted(s, row, di, ti);
    if s.len() == 0 {
        lemma_row_le_total(row, row, di, ti);
        assert(seq![row] =~= Seq::<Seq<char>>::empty().push(row));
        assert(out.to_multiset() =~= s.to_multiset().insert(row));
    } else if row_le(s[0], row, di, ti) {
        let d = s.drop_first();
        assert forall|i: int, j: int| 0 <= i <= j < d.len() implies row_le(
            d[i],
            d[j],
            di,
            ti,
        ) by {
            assert(d[i] == s[i + 1]);
            assert(d[j] == s[j + 1]);
            assert(row_le(s[i + 1], s[j + 1], di, ti));
        }
        assert(rows_sorted(d, di, ti));
        lemma_insert_sorted_props(d, row, di, ti);
        let dins = insert_sorted(d, row, di, ti);
        assert(out =~= seq![s[0]] + dins);
        assert forall|i: int, j: int| 0 <= i <= j < out.len() implies row_le(
            out[i],
            out[j],
            di,
            ti,
        ) by {
            if i == 0 && j > 0 {
                let x = dins[j - 1];
                assert(dins.to_multiset().count(x) > 0);
                assert(d.to_multiset().insert(row).count(x) > 0);
                if x == row {
                    assert(row_le(s[0], row, di, ti));
                } else {
                    assert(d.to_multiset().count(x) > 0);
                    assert(d.contains(x));
                    let w = choose|w: int| 0 <= w < d.len() && d[w] == x;
                    assert(row_le(s[0], s[w + 1], di, ti));
                }
            } else if i == 0 && j == 0 {
                assert(row_le(s[0], s[0], di, ti));
            }
        }
        assert(out.to_multiset() =~= s.to_multiset().insert(row)) by {
            vstd::seq_lib::lemma_multiset_commutative(seq![s[0]], dins);
            vstd::seq_lib::lemma_multiset_commutative(seq![s[0]], d);
            assert(seq![s[0]] + d =~= s);
            assert(seq![s[0]].to_multiset().add(dins.to_multiset()) =~= seq![
                s[0],
            ].to_multiset().add(d.to_multiset()).insert(row));
        }
    } else {
        lemma_row_le_total(s[0], row, di, ti);
        assert(out =~= seq![row] + s);
        assert forall|i: int, j: int| 0 <= i <= j < out.len() implies row_le(
            out[i],
            out[j],
            di,
            ti,
        ) by {
            if i == 0 && j > 0 {
                lemma_row_le_trans(row, s[0], s[j - 1], di, ti);
            } else if i == 0 && j == 0 {
                lemma_row_le_total(row, row, di, ti);
            }
        }
        assert(out.to_multiset() =~= s.to_multiset().insert(row)) by {
            vstd::seq_lib::lemma_multiset_commutative(seq![row], s);
            assert(seq![row] =~= Seq::<Seq<char>>::empty().push(row));
        }
    }
}

/// Law: sorting by recency yields a sequence that is sorted by the
/// recency order and is a permutation of its input.
pub proof fn lemma_sort_rows_spec_props(rows: Seq<Seq<char>>, di: int, ti: int)
    ensures
        sort_rows_spec(rows, di, ti).len() == rows.len(),
        rows_sorted(sort_rows_spec(rows, di, ti), di, ti),
        sort_rows_spec(rows, di, ti).to_multiset() == rows.to_multiset(),
    decreases rows.len(),
{
    broadcast use vstd::seq_lib::group_to_multiset_ensures;

    if rows.len() > 0 {
        lemma_sort_rows_spec_props(rows.drop_last(), di, ti);
        lemma_insert_sorted_props(
            sort_rows_spec(rows.drop_last(), di, ti),
            rows.last(),
            di,
            ti,
        );
        assert(rows =~= rows.drop_last().push(rows.last()));
        assert(rows.drop_last().push(rows.last()).to_multiset() =~= rows.drop_last().to_multiset().insert(
            rows.last(),
        ));
    }
}

/// Law: the first row of the sorted sequence is at least as recent as
/// every input row; in particular, with rows for two dates, a row of the
/// later date comes out first, whatever the input order.
pub proof fn lemma_sort_first_is_most_recent(rows: Seq<Seq<char>>, di: int, ti: int)
    requires
        rows.len() > 0,
    ensures
        sort_rows_spec(rows, di, ti).len() == rows.len(),
        forall|i: int|
            0 <= i < rows.len() ==> row_le(sort_rows_spec(rows, di, ti)[0], rows[i], di, ti),
{
    broadcast use vstd::seq_lib::group_to_multiset_ensures;

    lemma_sort_rows_spec_props(rows, di, ti);
    let out = sort_rows_spec(rows, di, ti);
    assert forall|i: int| 0 <= i < rows.len() implies row_le(out[0], rows[i], di, ti) by {
        assert(rows.contains(rows[i]));
        assert(rows.to_multiset().count(rows[i]) > 0);
        assert(out.to_multiset().count(rows[i]) > 0);
        assert(out.contains(rows[i]));
        let w = choose|w: int| 0 <= w < out.len() && out[w] == rows[i];
        assert(row_le(out[0], out[w], di, ti));
    }
}

/// Law: in the sorted output, dates never increase from front to back,
/// so every row of a later date stands before every row of an earlier
/// date, whatever the input order was.
pub proof fn lemma_sorted_dates_descend(rows: Seq<Seq<char>>, di: int, ti: int)
    ensures
        forall|i: int, j: int|
            0 <= i <= j < sort_rows_spec(rows, di, ti).len() ==> lex_le(
                field_at(sort_rows_spec(rows, di, ti)[j], ',', di),
                field_at(sort_rows_spec(rows, di, ti)[i], ',', di),
            ),
{
    lemma_sort_rows_spec_props(rows, di, ti);
    let out = sort_rows_spec(rows, di, ti);
    assert forall|i: int, j: int| 0 <= i <= j < out.len() implies lex_le(
        field_at(out[j], ',', di),
        field_at(out[i], ',', di),
    ) by {
        assert(row_le(out[i], out[j], di, ti));
        let a = field_at(out[i], ',', di);
        let b = field_at(out[j], ',', di);
        if a == b {
            lemma_lex_le_total(b, a);
            if !lex_le(b, a) {
                lemma_lex_le_antisym(a, b);
            }
        }
    }
}

/// Compares two rows in the recency order.
pub fn row_le_exec(a: &str, b: &str, date_index: usize, time_index: usize) -> (r: bool)
    ensures
        r == row_le(a@, b@, date_index as int, time_index as int),
{
    let da = field_or_empty(a, date_index);
    let db = field_or_empty(b, date_index);
    if str_eq(da.as_str(), db.as_str()) {
        let ta = field_or_empty(a, time_index);
        let tb = field_or_empty(b, time_index);
        str_le(tb.as_str(), ta.as_str())
    } else {
        str_le(db.as_str(), da.as_str())
    }
}

/// Sorts data rows by recency: strictly descending date, then
/// descending time; rows with equal keys keep their input order.
pub fn sort_rows(rows: &Vec<String>, date_index: usize, time_index: usize) -> (r: Vec<String>)
    ensures
        string_views(r@) == sort_rows_spec(
            string_views(rows@),
            date_index as int,
            time_index as int,
        ),
{
    let ghost di = date_index as int;
    let ghost ti = time_index as int;
    let ghost views = string_views(rows@);
    let n = rows.len();
    let mut out: Vec<String> = Vec::new();
    let mut i: usize = 0;
    proof {
        assert(views.take(0) =~= Seq::<Seq<char>>::empty());
        assert(string_views(out@) =~= sort_rows_spec(views.take(0), di, ti));
    }
    while i < n
        invariant
            i <= n,
            n == rows@.len(),
            views == string_views(rows@),
            di == date_index as int,
            ti == time_index as int,
            string_views(out@) == sort_rows_spec(views.take(i as int), di, ti),
        decreases n - i,
    {
        let row = rows[i].clone();
        let ghost s = string_views(out@);
        let mut pos: usize = 0;
        while pos < out.len() && row_le_exec(out[pos].as_str(), row.as_str(), date_index, time_index)
            invariant
                pos <= out@.len(),
                s == string_views(out@),
                di == date_index as int,
                ti == time_index as int,
                row@ == rows@[i as int]@,
                i < rows@.len(),
                forall|j: int| 0 <= j < pos ==> row_le(s[j], row@, di, ti),
            decreases out@.len() - pos,
        {
            pos = pos + 1;
        }
        let ghost old_out = out@;
        out.insert(pos, row);
        proof {
            lemma_insert_sorted_split(s, rows@[i as int]@, di, ti, pos as int);
            assert(string_views(out@) =~~= s.take(pos as int) + seq![rows@[i as int]@] + s.skip(
                pos as int,
            ));
            assert(views.take(i + 1 as int).drop_last() =~= views.take(i as int));
            assert(views.take(i + 1 as int).last() == rows@[i as int]@);
            assert(string_views(out@) =~~= sort_rows_spec(views.take(i + 1 as int), di, ti));
        }
        i = i + 1;
    }
    proof {
        assert(views.take(n as int) =~= views);
    }
    out
}

/// Why the policy could not reach a decision.  Each case mirrors a
/// lookup the report data must support: the column list, the data rows
/// and the sensor list must be present, the `date` and `time` columns
/// must exist, and every door sensor must carry an identifier naming a
/// column of the report.
#[derive(Debug, Clone, Copy, PartialEq, Eq)]
pub enum PolicyError {
    MissingColumns,
    MissingData,
    MissingSensors,
    DateColumnMissing,
    TimeColumnMissing,
    SensorIdMissing,
    SensorColumnMissing,
}

/// The view of an optional string.
pub open spec fn opt_view(o: Option<String>) -> Option<Seq<char>> {
    match o {
        Some(s) => Some(s@),
        None => None,
    }
}

/// A door sensor: its reported type is literally `dryContact`.
pub open spec fn is_dry(s: RuntimeSensorMetadata) -> bool {
    opt_view(s.sensorType) == Some("dryContact"@)
}

/// The column position a sensor's data occupies, or -1 when the sensor
/// has no identifier or the identifier names no column.
pub open spec fn sensor_col(s: RuntimeSensorMetadata, cols: Seq<Seq<char>>) -> int {
    match s.sensorId {
        Some(id) => col_index(cols, id@),
        None => -1,
    }
}

/// A door sensor is usable when it has an identifier that names a
/// column; sensors of other types need nothing.
pub open spec fn sensor_ok(s: RuntimeSensorMetadata, cols: Seq<Seq<char>>) -> bool {
    is_dry(s) ==> s.sensorId is Some && sensor_col(s, cols) >= 0
}

/// The first `n` sensors are all usable.
pub open spec fn dry_ok_upto(
    ss: Seq<RuntimeSensorMetadata>,
    cols: Seq<Seq<char>>,
    n: int,
) -> bool {
    forall|j: int| 0 <= j < n ==> sensor_ok(#[trigger] ss[j], cols)
}

/// Door sensor `j` most recently reported open: the first non-empty
/// entry in its column of the recency-sorted rows is `0`.
pub open spec fn dry_open_at(
    ss: Seq<RuntimeSensorMetadata>,
    cols: Seq<Seq<char>>,
    sorted: Seq<Seq<char>>,
    j: int,
) -> bool {
    &&& is_dry(ss[j])
    &&& sensor_col(ss[j], cols) >= 0
    &&& first_nonempty(sorted, sensor_col(ss[j], cols)) == Some("0"@)
}

/// Some door sensor most recently reported open.
pub open spec fn door_open(
    ss: Seq<RuntimeSensorMetadata>,
    cols: Seq<Seq<char>>,
    sorted: Seq<Seq<char>>,
) -> bool {
    exists|j: int| 0 <= j < ss.len() && dry_open_at(ss, cols, sorted, j)
}

/// The report's column views, or empty when the column list is absent.
pub open spec fn report_cols(r: RuntimeSensorReport) -> Seq<Seq<char>> {
    match r.columns {
        Some(cs) => string_views(cs@),
        None => Seq::empty(),
    }
}

/// The report's data-row views, or empty when the data list is absent.
pub open spec fn report_rows(r: RuntimeSensorReport) -> Seq<Seq<char>> {
    match r.data {
        Some(ds) => string_views(ds@),
        None => Seq::empty(),
    }
}

/// The report's sensor list, or empty when absent.
pub open spec fn report_sensors(r: RuntimeSensorReport) -> Seq<RuntimeSensorMetadata> {
    match r.sensors {
        Some(ss) => ss@,
        None => Seq::empty(),
    }
}

/// The column list, data rows and sensor list are all present.
pub open spec fn fields_present(r: RuntimeSensorReport) -> bool {
    r.columns is Some && r.data is Some && r.sensors is Some
}

/// The position of the `date` column.
pub open spec fn date_col(r: RuntimeSensorReport) -> int {
    col_index(report_cols(r), "date"@)
}

/// The position of the `time` column.
pub open spec fn time_col(r: RuntimeSensorReport) -> int {
    col_index(report_cols(r), "time"@)
}

/// Everything the decision needs before sensors are examined: the three
/// lists are present, there is at least one data row, and the `date`
/// and `time` columns exist.
pub open spec fn base_checks(r: RuntimeSensorReport) -> bool {
    fields_present(r) && report_rows(r).len() > 0 && date_col(r) >= 0 && time_col(r) >= 0
}

/// The report's data rows sorted by recency.
pub open spec fn sorted_report_rows(r: RuntimeSensorReport) -> Seq<Seq<char>> {
    sort_rows_spec(report_rows(r), date_col(r), time_col(r))
}

/// Some door sensor of the report most recently reported open.
pub open spec fn report_open(r: RuntimeSensorReport) -> bool {
    door_open(report_sensors(r), report_cols(r), sorted_report_rows(r))
}

/// Decides which HVAC mode an update call should set from one sensor
/// report: `off` when some door sensor most recently reported open,
/// `auto` when all are closed, and no update at all when the report has
/// no data rows.  Fails when a lookup the policy depends on cannot be
/// made.
pub fn decide_hvac_mode(report: &RuntimeSensorReport) -> (r: Result<Option<String>, PolicyError>)
    ensures
        r == Err::<Option<String>, PolicyError>(PolicyError::MissingColumns) <==> report.columns
            is None,
        r == Err::<Option<String>, PolicyError>(PolicyError::MissingData) <==> report.columns
            is Some && report.data is None,
        r == Err::<Option<String>, PolicyError>(PolicyError::MissingSensors) <==> report.columns
            is Some && report.data is Some && report.sensors is None,
        (match r {
            Ok(m) => m is None,
            Err(_) => false,
        }) <==> fields_present(*report) && report_rows(*report).len() == 0,
        r == Err::<Option<String>, PolicyError>(PolicyError::DateColumnMissing) <==> fields_present(
            *report,
        ) && report_rows(*report).len() > 0 && date_col(*report) < 0,
        r == Err::<Option<String>, PolicyError>(PolicyError::TimeColumnMissing) <==> fields_present(
            *report,
        ) && report_rows(*report).len() > 0 && date_col(*report) >= 0 && time_col(*report) < 0,
        r == Err::<Option<String>, PolicyError>(PolicyError::SensorIdMissing) <==> base_checks(
            *report,
        ) && (exists|i: int|
            0 <= i < report_sensors(*report).len() && is_dry(#[trigger] report_sensors(*report)[i])
                && report_sensors(*report)[i].sensorId is None && dry_ok_upto(
                report_sensors(*report),
                report_cols(*report),
                i,
            )),
        r == Err::<Option<String>, PolicyError>(PolicyError::SensorColumnMissing) <==> base_checks(
            *report,
        ) && (exists|i: int|
            0 <= i < report_sensors(*report).len() && is_dry(#[trigger] report_sensors(*report)[i])
                && report_sensors(*report)[i].sensorId is Some && sensor_col(
                report_sensors(*report)[i],
                report_cols(*report),
            ) < 0 && dry_ok_upto(report_sensors(*report), report_cols(*report), i)),
        (match r {
            Ok(m) => m is Some,
            Err(_) => false,
        }) <==> base_checks(*report) && dry_ok_upto(
            report_sensors(*report),
            report_cols(*report),
            report_sensors(*report).len() as int,
        ),
        (match r {
            Ok(Some(m)) => m@ == if report_open(*report) {
                "off"@
            } else {
                "auto"@
            },
            _ => true,
        }),
{
    let columns = match &report.columns {
        Some(c) => c,
        None => {
            return Err(PolicyError::MissingColumns);
        },
    };
    let data = match &report.data {
        Some(d) => d,
        None => {
            return Err(PolicyError::MissingData);
        },
    };
    let sensors = match &report.sensors {
        Some(s) => s,
        None => {
            return Err(PolicyError::MissingSensors);
        },
    };
    if data.len() == 0 {
        return Ok(None);
    }
    let date_index = match find_column(columns, "date") {
        Some(k) => k,
        None => {
            return Err(PolicyError::DateColumnMissing);
        },
    };
    let time_index = match find_column(columns, "time") {
        Some(k) => k,
        None => {
            return Err(PolicyError::TimeColumnMissing);
        },
    };
    let sorted = sort_rows(data, date_index, time_index);
    let ghost ss = report_sensors(*report);
    let ghost cols = report_cols(*report);
    let ghost sorted_views = string_views(sorted@);
    proof {
        assert(sorted_views == sorted_report_rows(*report));
    }
    let n = sensors.len();
    let mut open_found = false;
    let mut i: usize = 0;
    while i < n
        invariant
            i <= n,
            n == ss.len(),
            ss == report_sensors(*report),
            cols == report_cols(*report),
            sorted_views == string_views(sorted@),
            sorted_views == sorted_report_rows(*report),
            sensors@ == ss,
            columns@.map_values(|c: String| c@) == cols,
            sorted@.len() >= 0,
            dry_ok_upto(ss, cols, i as int),
            open_found == (exists|j: int| 0 <= j < i && dry_open_at(ss, cols, sorted_views, j)),
            base_checks(*report),
        decreases n - i,
    {
        let mut dry = false;
        if let Some(t) = &sensors[i].sensorType {
            if str_eq(t.as_str(), "dryContact") {
                dry = true;
            }
        }
        proof {
            assert(dry == is_dry(ss[i as int]));
        }
        if dry {
            let id = match &sensors[i].sensorId {
                Some(id) => id,
                None => {
                    proof {
                        assert(is_dry(ss[i as int]) && ss[i as int].sensorId is None
                            && dry_ok_upto(ss, cols, i as int));
                    }
                    return Err(PolicyError::SensorIdMissing);
                },
            };
            let k = match find_column(columns, id.as_str()) {
                Some(k) => k,
                None => {
                    proof {
                        assert(sensor_col(ss[i as int], cols) < 0);
                        assert(is_dry(ss[i as int]) && ss[i as int].sensorId is Some
                            && dry_ok_upto(ss, cols, i as int));
                    }
                    return Err(PolicyError::SensorColumnMissing);
                },
            };
            proof {
                assert(sensor_col(ss[i as int], cols) == k as int);
            }
            let entry = first_nonempty_field(&sorted, k);
            let mut open_here = false;
            match entry {
                Some(e) => {
                    if str_eq(e.as_str(), "0") {
                        open_here = true;
                    }
                },
                None => {},
            }
            proof {
                assert(open_here == dry_open_at(ss, cols, sorted_views, i as int));
            }
            if open_here {
                open_found = true;
            }
            proof {
                if open_found {
                    if open_here {
                        assert(dry_open_at(ss, cols, sorted_views, i as int));
                        assert(exists|j: int|
                            0 <= j < i + 1 && dry_open_at(ss, cols, sorted_views, j));
                    }
                } else {
                    assert forall|j: int|
                        0 <= j < i + 1 && dry_open_at(ss, cols, sorted_views, j) implies false by {
                        assert(0 <= j < i || j == i);
                    }
                }
            }
        } else {
            proof {
                if exists|j: int| 0 <= j < i + 1 && dry_open_at(ss, cols, sorted_views, j) {
                    let j = choose|j: int|
                        0 <= j < i + 1 && dry_open_at(ss, cols, sorted_views, j);
                    assert(0 <= j < i);
                }
            }
        }
        i = i + 1;
    }
    let mode = if open_found {
        "off".to_owned()
    } else {
        "auto".to_owned()
    };
    proof {
        assert(open_found == report_open(*report));
    }
    Ok(Some(mode))
}

} // verus!
