//! The delimited text output: a fixed header line and one line per
//! record, comma-separated, with no quoting; and the inverse reading,
//! splitting on commas and skipping the header.

use vstd::prelude::*;
use vstd::string::StringExecFns;
use crate::model::{AreaRecView, AreaRecord};
use crate::model::rec_views;
use crate::strutil::{chars_to_string, str_chars};
use crate::timefmt::text_csv_safe;

verus! {

/// Whether `c` occurs in `s`.
pub open spec fn contains_ch(s: Seq<char>, c: char) -> bool {
    exists|i: int| 0 <= i < s.len() && s[i] == c
}

/// The index of the first occurrence of `c` in `s`; `s.len()` if none.
pub open spec fn find_ch(s: Seq<char>, c: char) -> int
    decreases s.len(),
{
    if s.len() == 0 {
        0
    } else if s[0] == c {
        0
    } else {
        1 + find_ch(s.drop_first(), c)
    }
}

pub proof fn lemma_find_ch(s: Seq<char>, c: char)
    ensures
        0 <= find_ch(s, c) <= s.len(),
        find_ch(s, c) < s.len() ==> s[find_ch(s, c)] == c,
        forall|j: int| 0 <= j < find_ch(s, c) ==> s[j] != c,
    decreases s.len(),
{
    if s.len() == 0 {
    } else if s[0] == c {
    } else {
        lemma_find_ch(s.drop_first(), c);
        assert forall|j: int| 0 <= j < find_ch(s, c) implies s[j] != c by {
            if j > 0 {
                assert(s.drop_first()[j - 1] == s[j]);
            }
        }
    }
}

/// The first occurrence is characterised by its earlier positions.
pub proof fn lemma_find_ch_is(s: Seq<char>, c: char, i: int)
    requires
        0 <= i <= s.len(),
        forall|j: int| 0 <= j < i ==> s[j] != c,
        i < s.len() ==> s[i] == c,
    ensures
        find_ch(s, c) == i,
    decreases s.len(),
{
    if s.len() == 0 {
    } else if s[0] == c {
        assert(i == 0);
    } else {
        assert(i >= 1);
        assert forall|j: int| 0 <= j < i - 1 implies s.drop_first()[j] != c by {
            assert(s.drop_first()[j] == s[j + 1]);
        }
        assert(i - 1 < s.drop_first().len() ==> s.drop_first()[i - 1] == c);
        lemma_find_ch_is(s.drop_first(), c, i - 1);
    }
}

/// The pieces of `s` between the occurrences of `c`, in order; one more
/// piece than there are occurrences.
pub open spec fn split_ch(s: Seq<char>, c: char) -> Seq<Seq<char>>
    decreases s.len(),
    via split_ch_dec
{
    let i = find_ch(s, c);
    if i == s.len() {
        seq![s]
    } else {
        seq![s.take(i)] + split_ch(s.skip(i + 1), c)
    }
}

#[via_fn]
proof fn split_ch_dec(s: Seq<char>, c: char) {
    lemma_find_ch(s, c);
}

/// A piece without the separator splits into itself alone.
pub proof fn lemma_split_no_sep(a: Seq<char>, c: char)
    requires
        !contains_ch(a, c),
    ensures
        split_ch(a, c) == seq![a],
{
    assert forall|j: int| 0 <= j < a.len() implies a[j] != c by {
        if a[j] == c {
            assert(contains_ch(a, c));
        }
    }
    lemma_find_ch_is(a, c, a.len() as int);
}

/// Splitting peels one separator-free piece off the front.
pub proof fn lemma_split_append(a: Seq<char>, c: char, b: Seq<char>)
    requires
        !contains_ch(a, c),
    ensures
        split_ch(a + seq![c] + b, c) == seq![a] + split_ch(b, c),
{
    let s = a + seq![c] + b;
    assert forall|j: int| 0 <= j < a.len() implies s[j] != c by {
        assert(s[j] == a[j]);
        if a[j] == c {
            assert(contains_ch(a, c));
        }
    }
    assert(s[a.len() as int] == c);
    lemma_find_ch_is(s, c, a.len() as int);
    assert(s.take(a.len() as int) =~= a);
    assert(s.skip(a.len() as int + 1) =~= b);
}

/// Occurrence distributes over concatenation.
pub proof fn lemma_contains_concat(a: Seq<char>, b: Seq<char>, c: char)
    ensures
        contains_ch(a + b, c) == (contains_ch(a, c) || contains_ch(b, c)),
{
    if contains_ch(a, c) {
        let i = choose|i: int| 0 <= i < a.len() && a[i] == c;
        assert((a + b)[i] == c);
    }
    if contains_ch(b, c) {
        let i = choose|i: int| 0 <= i < b.len() && b[i] == c;
        assert((a + b)[a.len() + i] == c);
    }
    if contains_ch(a + b, c) {
        let i = choose|i: int| 0 <= i < (a + b).len() && (a + b)[i] == c;
        if i < a.len() {
            assert(a[i] == c);
        } else {
            assert(b[i - a.len()] == c);
        }
    }
}

/// A safe text holds neither separator.
pub proof fn lemma_safe_no_sep(s: Seq<char>)
    requires
        text_csv_safe(s),
    ensures
        !contains_ch(s, ','),
        !contains_ch(s, '\n'),
{
}

/// One record's line, fields in the fixed order, comma-separated.
pub open spec fn row_line(r: AreaRecView) -> Seq<char> {
    r.time_text + seq![','] + r.hash + seq![','] + r.area + seq![','] + r.percent + seq![',']
        + r.area_type
}

/// One record's output: its line and the line break.
pub open spec fn row_text(r: AreaRecView) -> Seq<char> {
    row_line(r) + seq!['\n']
}

/// Every record's output, in order.
pub open spec fn rows_text(rs: Seq<AreaRecView>) -> Seq<char>
    decreases rs.len(),
{
    if rs.len() == 0 {
        Seq::empty()
    } else {
        row_text(rs[0]) + rows_text(rs.drop_first())
    }
}

/// The fixed header line.
pub open spec fn csv_header_line() -> Seq<char> {
    "time_index,hash,area,percent,area_type\n"@
}

/// The whole output text: the header line, then one line per record.
pub open spec fn csv_text(rs: Seq<AreaRecView>) -> Seq<char> {
    csv_header_line() + rows_text(rs)
}

/// True of a record none of whose rendered fields can disturb the row
/// layout (the format performs no quoting).
pub open spec fn rec_csv_safe(r: AreaRecView) -> bool {
    &&& text_csv_safe(r.time_text)
    &&& text_csv_safe(r.hash)
    &&& text_csv_safe(r.area)
    &&& text_csv_safe(r.percent)
    &&& text_csv_safe(r.area_type)
}

/// Render the records as the output text. With no records at all the
/// result is exactly the header line.
pub fn render_csv(records: &Vec<AreaRecord>) -> (s: String)
    ensures
        s@ == csv_text(rec_views(records@)),
{
    let mut s = "time_index,hash,area,percent,area_type\n".to_owned();
    let n = records.len();
    let mut i: usize = 0;
    proof {
        assert(rec_views(records@).skip(0) =~= rec_views(records@));
        reveal_strlit(",");
        reveal_strlit("\n");
        assert(","@ =~= seq![',']);
        assert("\n"@ =~= seq!['\n']);
    }
    while i < n
        invariant
            n == records@.len(),
            0 <= i <= n,
            ","@ =~= seq![','],
            "\n"@ =~= seq!['\n'],
            rec_views(records@).len() == n,
            csv_text(rec_views(records@)) == s@ + rows_text(rec_views(records@).skip(i as int)),
        decreases n - i,
    {
        let ghost views = rec_views(records@);
        let ghost pre = s@;
        assert(views.skip(i as int)[0] == records@[i as int]@);
        assert(views.skip(i as int).drop_first() =~= views.skip(i + 1));
        let rec = &records[i];
        s.append(rec.time_text.as_str());
        s.append(",");
        s.append(rec.hash.as_str());
        s.append(",");
        s.append(rec.area.as_str());
        s.append(",");
        s.append(rec.percent.as_str());
        s.append(",");
        s.append(rec.area_type.as_str());
        s.append("\n");
        proof {
            assert(s@ =~= pre + row_text(rec@));
            assert(pre + (row_text(rec@) + rows_text(views.skip(i + 1))) =~= (pre + row_text(
                rec@,
            )) + rows_text(views.skip(i + 1)));
        }
        i = i + 1;
    }
    proof {
        assert(rec_views(records@).skip(n as int) =~= Seq::<AreaRecView>::empty());
        assert(s@ + Seq::<char>::empty() =~= s@);
    }
    s
}

/// The views of split pieces.
pub open spec fn piece_views(ps: Seq<Vec<char>>) -> Seq<Seq<char>> {
    ps.map_values(|p: Vec<char>| p@)
}

/// Split a text at every occurrence of `sep`.
fn split_vec(v: &Vec<char>, sep: char) -> (r: Vec<Vec<char>>)
    ensures
        piece_views(r@) == split_ch(v@, sep),
        r@.len() >= 1,
{
    let mut parts: Vec<Vec<char>> = Vec::new();
    let mut cur: Vec<char> = Vec::new();
    let n = v.len();
    let mut i: usize = 0;
    proof {
        assert(cur@ + v@.skip(0) =~= v@);
        assert(piece_views(parts@) =~= Seq::<Seq<char>>::empty());
    }
    while i < n
        invariant
            n == v@.len(),
            0 <= i <= n,
            !contains_ch(cur@, sep),
            split_ch(v@, sep) == piece_views(parts@) + split_ch(cur@ + v@.skip(i as int), sep),
        decreases n - i,
    {
        let c = v[i];
        assert(v@.skip(i as int)[0] == v@[i as int]);
        assert(v@.skip(i as int).drop_first() =~= v@.skip(i + 1));
        if c == sep {
            let ghost old_parts = parts@;
            let ghost old_cur = cur@;
            assert(old_cur + v@.skip(i as int) =~= old_cur + seq![sep] + v@.skip(i + 1));
            proof {
                lemma_split_append(old_cur, sep, v@.skip(i + 1));
            }
            parts.push(cur);
            cur = Vec::new();
            proof {
                assert(piece_views(parts@) =~= piece_views(old_parts) + seq![old_cur]);
                assert(cur@ + v@.skip(i + 1) =~= v@.skip(i + 1));
                assert((piece_views(old_parts) + seq![old_cur]) + split_ch(v@.skip(i + 1), sep)
                    =~= piece_views(old_parts) + (seq![old_cur] + split_ch(
                    v@.skip(i + 1),
                    sep,
                )));
            }
        } else {
            let ghost old_cur = cur@;
            cur.push(c);
            proof {
                assert(cur@ + v@.skip(i + 1) =~= old_cur + v@.skip(i as int));
                assert forall|j: int| 0 <= j < cur@.len() implies cur@[j] != sep by {
                    if j < old_cur.len() {
                        if old_cur[j] == sep {
                            assert(contains_ch(old_cur, sep));
                        }
                    }
                }
                if contains_ch(cur@, sep) {
                    let j = choose|j: int| 0 <= j < cur@.len() && cur@[j] == sep;
                }
            }
        }
        i = i + 1;
    }
    proof {
        assert(cur@ + v@.skip(n as int) =~= cur@);
        lemma_split_no_sep(cur@, sep);
    }
    let ghost old_parts = parts@;
    parts.push(cur);
    proof {
        assert(piece_views(parts@) =~= piece_views(old_parts) + seq![cur@]);
        assert(piece_views(old_parts) + split_ch(cur@, sep) =~= piece_views(parts@));
    }
    parts
}

/// What reading the output text back must yield: every line after the
/// header (a trailing empty line ignored), each split at its commas.
pub open spec fn csv_rows_of(text: Seq<char>) -> Seq<Seq<Seq<char>>> {
    let lines = split_ch(text, '\n');
    let data = lines.drop_first();
    let trimmed = if data.len() > 0 && data.last().len() == 0 {
        data.drop_last()
    } else {
        data
    };
    trimmed.map_values(|line: Seq<char>| split_ch(line, ','))
}

/// The views of the fields of one read row.
pub open spec fn field_views(row: Seq<String>) -> Seq<Seq<char>> {
    row.map_values(|f: String| f@)
}

/// The views of all read rows.
pub open spec fn row_views(rows: Seq<Vec<String>>) -> Seq<Seq<Seq<char>>> {
    rows.map_values(|row: Vec<String>| field_views(row@))
}

/// Read an output text back: skip the header line, ignore a trailing
/// empty line, and split every remaining line at its commas.
pub fn parse_csv(text: &str) -> (rows: Vec<Vec<String>>)
    ensures
        row_views(rows@) == csv_rows_of(text@),
{
    let chars = str_chars(text);
    let lines = split_vec(&chars, '\n');
    let ghost spec_lines = split_ch(text@, '\n');
    let m = lines.len();
    let last_empty = lines[m - 1].len() == 0;
    let end = if m >= 2 && last_empty {
        m - 1
    } else {
        m
    };
    let ghost data = spec_lines.drop_first();
    let ghost trimmed = csv_rows_of(text@);
    proof {
        assert(piece_views(lines@).last() == lines@[m - 1]@);
        if data.len() > 0 && data.last().len() == 0 {
            assert(data.drop_last() =~= piece_views(lines@).subrange(1, m - 1));
            assert(trimmed =~= data.drop_last().map_values(
                |line: Seq<char>| split_ch(line, ','),
            ));
        } else {
            assert(data =~= piece_views(lines@).subrange(1, m as int));
        }
    }
    let mut rows: Vec<Vec<String>> = Vec::new();
    let mut i: usize = 1;
    proof {
        assert(row_views(rows@) =~= Seq::<Seq<Seq<char>>>::empty());
    }
    while i < end
        invariant
            1 <= i <= end <= m,
            m == lines@.len(),
            trimmed == csv_rows_of(text@),
            trimmed.len() == end - 1,
            forall|k: int|
                1 <= k < end ==> trimmed[k - 1] == split_ch(
                    piece_views(lines@)[k],
                    ',',
                ),
            row_views(rows@) == trimmed.take(i - 1),
        decreases end - i,
    {
        let fields = split_vec(&lines[i], ',');
        let mut row: Vec<String> = Vec::new();
        let fn_ = fields.len();
        let mut k: usize = 0;
        proof {
            assert(field_views(row@) =~= Seq::<Seq<char>>::empty());
            assert(piece_views(fields@).take(0) =~= Seq::<Seq<char>>::empty());
        }
        while k < fn_
            invariant
                0 <= k <= fn_,
                fn_ == fields@.len(),
                field_views(row@) == piece_views(fields@).take(k as int),
            decreases fn_ - k,
        {
            let ghost old_row = row@;
            row.push(chars_to_string(&fields[k]));
            proof {
                assert(field_views(row@) =~= field_views(old_row) + seq![fields@[k as int]@]);
                assert(piece_views(fields@).take(k + 1) =~= piece_views(fields@).take(k as int)
                    + seq![fields@[k as int]@]);
            }
            k = k + 1;
        }
        proof {
            assert(piece_views(fields@).take(fn_ as int) =~= piece_views(fields@));
        }
        let ghost old_rows = rows@;
        let ghost rowv = row@;
        rows.push(row);
        proof {
            assert(piece_views(lines@)[i as int] == lines@[i as int]@);
            assert(field_views(rowv) == trimmed[i - 1]);
            assert(row_views(rows@) =~= row_views(old_rows) + seq![field_views(rowv)]);
            assert(trimmed.take(i as int) =~= trimmed.take(i - 1) + seq![trimmed[i - 1]]);
        }
        i = i + 1;
    }
    proof {
        assert(trimmed.take(end - 1) =~= trimmed);
    }
    rows
}

/// The lines of the rendered records: one line per record, in order,
/// and one final empty piece from the terminating line break.
proof fn lemma_rows_split(rs: Seq<AreaRecView>)
    requires
        forall|i: int| 0 <= i < rs.len() ==> rec_csv_safe(#[trigger] rs[i]),
    ensures
        split_ch(rows_text(rs), '\n') == rs.map_values(|r: AreaRecView| row_line(r)) + seq![
            Seq::<char>::empty(),
        ],
    decreases rs.len(),
{
    let lines = rs.map_values(|r: AreaRecView| row_line(r));
    if rs.len() == 0 {
        assert(!contains_ch(Seq::empty(), '\n'));
        lemma_split_no_sep(Seq::empty(), '\n');
        assert(split_ch(rows_text(rs), '\n') =~= lines + seq![Seq::<char>::empty()]);
    } else {
        let r = rs[0];
        lemma_row_line_no_newline(r);
        assert(rows_text(rs) =~= row_line(r) + seq!['\n'] + rows_text(rs.drop_first()));
        lemma_split_append(row_line(r), '\n', rows_text(rs.drop_first()));
        lemma_rows_split(rs.drop_first());
        assert(rs.drop_first().map_values(|r: AreaRecView| row_line(r)) =~= lines.drop_first());
        assert(seq![row_line(r)] + (lines.drop_first() + seq![Seq::<char>::empty()]) =~= lines
            + seq![Seq::<char>::empty()]);
    }
}

/// A safe record's line holds no line break.
proof fn lemma_row_line_no_newline(r: AreaRecView)
    requires
        rec_csv_safe(r),
    ensures
        !contains_ch(row_line(r), '\n'),
{
    lemma_safe_no_sep(r.time_text);
    lemma_safe_no_sep(r.hash);
    lemma_safe_no_sep(r.area);
    lemma_safe_no_sep(r.percent);
    lemma_safe_no_sep(r.area_type);
    let comma = seq![','];
    assert(!contains_ch(comma, '\n')) by {
        if contains_ch(comma, '\n') {
            let i = choose|i: int| 0 <= i < comma.len() && comma[i] == '\n';
        }
    }
    lemma_contains_concat(r.time_text, comma, '\n');
    lemma_contains_concat(r.time_text + comma, r.hash, '\n');
    lemma_contains_concat(r.time_text + comma + r.hash, comma, '\n');
    lemma_contains_concat(r.time_text + comma + r.hash + comma, r.area, '\n');
    lemma_contains_concat(r.time_text + comma + r.hash + comma + r.area, comma, '\n');
    lemma_contains_concat(r.time_text + comma + r.hash + comma + r.area + comma, r.percent, '\n');
    lemma_contains_concat(
        r.time_text + comma + r.hash + comma + r.area + comma + r.percent,
        comma,
        '\n',
    );
    lemma_contains_concat(
        r.time_text + comma + r.hash + comma + r.area + comma + r.percent + comma,
        r.area_type,
        '\n',
    );
}

/// A safe record's line splits at its commas back into its five fields.
proof fn lemma_row_fields(r: AreaRecView)
    requires
        rec_csv_safe(r),
    ensures
        split_ch(row_line(r), ',') == seq![r.time_text, r.hash, r.area, r.percent, r.area_type],
{
    lemma_safe_no_sep(r.time_text);
    lemma_safe_no_sep(r.hash);
    lemma_safe_no_sep(r.area);
    lemma_safe_no_sep(r.percent);
    lemma_safe_no_sep(r.area_type);
    let rest1 = r.hash + seq![','] + r.area + seq![','] + r.percent + seq![','] + r.area_type;
    let rest2 = r.area + seq![','] + r.percent + seq![','] + r.area_type;
    let rest3 = r.percent + seq![','] + r.area_type;
    assert(row_line(r) =~= r.time_text + seq![','] + rest1);
    lemma_split_append(r.time_text, ',', rest1);
    assert(rest1 =~= r.hash + seq![','] + rest2);
    lemma_split_append(r.hash, ',', rest2);
    assert(rest2 =~= r.area + seq![','] + rest3);
    lemma_split_append(r.area, ',', rest3);
    lemma_split_append(r.percent, ',', r.area_type);
    lemma_split_no_sep(r.area_type, ',');
    assert(split_ch(row_line(r), ',') =~= seq![
        r.time_text,
        r.hash,
        r.area,
        r.percent,
        r.area_type,
    ]);
}

/// Writing a set of safe records and reading the text back reproduces,
/// row by row and in the same order, the five rendered fields of every
/// record.
pub proof fn lemma_csv_round_trip(rs: Seq<AreaRecView>)
    requires
        forall|i: int| 0 <= i < rs.len() ==> rec_csv_safe(#[trigger] rs[i]),
    ensures
        csv_rows_of(csv_text(rs)).len() == rs.len(),
        forall|i: int|
            0 <= i < rs.len() ==> #[trigger] csv_rows_of(csv_text(rs))[i] == seq![
                rs[i].time_text,
                rs[i].hash,
                rs[i].area,
                rs[i].percent,
                rs[i].area_type,
            ],
{
    reveal_strlit("time_index,hash,area,percent,area_type\n");
    reveal_strlit("time_index,hash,area,percent,area_type");
    let h0 = "time_index,hash,area,percent,area_type"@;
    assert(csv_header_line() =~= h0 + seq!['\n']);
    assert(!contains_ch(h0, '\n')) by {
        if contains_ch(h0, '\n') {
            let i = choose|i: int| 0 <= i < h0.len() && h0[i] == '\n';
        }
    }
    assert(csv_text(rs) =~= h0 + seq!['\n'] + rows_text(rs));
    lemma_split_append(h0, '\n', rows_text(rs));
    lemma_rows_split(rs);
    let lines = split_ch(csv_text(rs), '\n');
    let rowlines = rs.map_values(|r: AreaRecView| row_line(r));
    assert(lines =~= seq![h0] + (rowlines + seq![Seq::<char>::empty()]));
    let data = lines.drop_first();
    assert(data =~= rowlines + seq![Seq::<char>::empty()]);
    assert(data.last().len() == 0);
    assert(data.drop_last() =~= rowlines);
    let rows = csv_rows_of(csv_text(rs));
    assert(rows =~= rowlines.map_values(|line: Seq<char>| split_ch(line, ',')));
    assert forall|i: int| 0 <= i < rs.len() implies #[trigger] rows[i] == seq![
        rs[i].time_text,
        rs[i].hash,
        rs[i].area,
        rs[i].percent,
        rs[i].area_type,
    ] by {
        lemma_row_fields(rs[i]);
    }
}

/// Zero records yield exactly the header line and nothing more.
pub proof fn lemma_empty_csv()
    ensures
        csv_text(Seq::empty()) == csv_header_line(),
{
    assert(csv_text(Seq::empty()) =~= csv_header_line());
}

} // verus!
